# sqlite-broker

Many processes open one SQLite file. One broker owns the file and runs their SQL
in order; while one session is inside a transaction, the others wait.

`src/` is the logic, verified with Verus:

| Modules | What they hold |
| --- | --- |
| `protocol`, `frame`, `stub`, `base64` | the messages, their frames, the stub file, blobs as text |
| `worker`, `scheduling` | the scheduler of the broker, and what holds of every run of it |
| `broker`, `runner` | conversations with clients, the log, running a script on a connection |
| `shim`, `calls`, `api`, `proxy`, `statement`, `ctext`, `lifetimes` | the library that stands in for `libsqlite3` in each client |
| `load`, `hammer`, `claim`, `audit`, `storm`, `rng` | the load driver and the audit of its writes |
| `cli`, `client`, `session` | the command line and the programs behind it |
| `text`, `number`, `utf8` | text and numbers |

`app/` is the program around it: sockets, files, processes, the real SQLite
library, JSON. Machines in `src/` take an event and say what to do; `app/` does it
and reports back.

The library trusts three functions of the standard library, each stated where it
is used: `String::push`, `str::from_utf8` and `String::from_utf8_lossy`.
