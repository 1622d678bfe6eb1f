//! The command line.
use vstd::prelude::*;

use crate::number::{
    decimal, decimal_reads_back, number_error, number_error_text, parse_u32, parse_u64,
    unsigned_value,
};
use crate::storm::{hammer_args, maybe_text, serve_args, worker_seed};
use crate::text::{copy_text, same_text, texts};

verus! {

/// The version of the program.
pub const VERSION: &'static str = "0.1.1";

/// How the program is used.
pub const USAGE: &'static str = "usage:
  sqlite-broker serve --storage FILE --stub FILE [--listen ADDR] [--advertise ADDR]
  sqlite-broker call --db FILE --sql SQL [--sql SQL ...]
  sqlite-broker session --db FILE
  sqlite-broker hammer --db FILE --worker N [--ops 1000] [--seed N]
  sqlite-broker storm [--apps 10] [--ops 1000] [--dir PATH]
  sqlite-broker version";

/// Where the broker listens, if nothing else is said.
pub const DEFAULT_LISTEN: &'static str = "127.0.0.1:0";

/// The value behind a flag.
pub open spec fn value_of(args: Seq<Seq<char>>) -> Result<Seq<char>, Seq<char>> {
    if args.len() > 1 {
        Ok(args[1])
    } else {
        Err("missing value for "@ + args[0])
    }
}

/// The number behind a flag.
pub open spec fn number_of(args: Seq<Seq<char>>, max: nat) -> Result<nat, Seq<char>> {
    match value_of(args) {
        Err(why) => Err(why),
        Ok(text) => match unsigned_value(text, max) {
            Ok(n) => Ok(n),
            Err(e) => Err(number_error_text(e)),
        },
    }
}

/// What is said of an argument that is none.
pub open spec fn unknown_argument(arg: Seq<char>) -> Seq<char> {
    "unknown argument "@ + arg
}

/// The value behind the flag at a position.
pub fn take(args: &Vec<String>, at: usize) -> (r: Result<String, String>)
    requires
        at < args.len(),
    ensures
        match r {
            Ok(v) => value_of(texts(args@).skip(at as int)) == Ok::<Seq<char>, Seq<char>>(v@),
            Err(why) => value_of(texts(args@).skip(at as int)) == Err::<Seq<char>, Seq<char>>(
                why@,
            ),
        },
{
    if args.len() - at > 1 {
        Ok(args[at + 1].clone())
    } else {
        let mut why = copy_text("missing value for ");
        why.append(args[at].as_str());
        Err(why)
    }
}

fn take_u32(args: &Vec<String>, at: usize) -> (r: Result<u32, String>)
    requires
        at < args.len(),
    ensures
        match r {
            Ok(n) => number_of(texts(args@).skip(at as int), u32::MAX as nat) == Ok::<
                nat,
                Seq<char>,
            >(n as nat),
            Err(why) => number_of(texts(args@).skip(at as int), u32::MAX as nat) == Err::<
                nat,
                Seq<char>,
            >(why@),
        },
{
    match take(args, at) {
        Err(why) => Err(why),
        Ok(text) => match parse_u32(text.as_str()) {
            Ok(n) => Ok(n),
            Err(e) => Err(number_error(e)),
        },
    }
}

fn take_u64(args: &Vec<String>, at: usize) -> (r: Result<u64, String>)
    requires
        at < args.len(),
    ensures
        match r {
            Ok(n) => number_of(texts(args@).skip(at as int), u64::MAX as nat) == Ok::<
                nat,
                Seq<char>,
            >(n as nat),
            Err(why) => number_of(texts(args@).skip(at as int), u64::MAX as nat) == Err::<
                nat,
                Seq<char>,
            >(why@),
        },
{
    match take(args, at) {
        Err(why) => Err(why),
        Ok(text) => match parse_u64(text.as_str()) {
            Ok(n) => Ok(n),
            Err(e) => Err(number_error(e)),
        },
    }
}

fn unknown(arg: &str) -> (why: String)
    ensures
        why@ == unknown_argument(arg@),
{
    let mut why = copy_text("unknown argument ");
    why.append(arg);
    why
}

proof fn next_args(args: Seq<String>, at: int)
    requires
        0 <= at < args.len(),
    ensures
        texts(args).skip(at).len() > 0,
        texts(args).skip(at)[0] == args[at]@,
        at + 1 < args.len() ==> texts(args).skip(at).skip(2) == texts(args).skip(at + 2),
        texts(args).skip(at).len() > 1 <==> at + 1 < args.len(),
{
}

// ------------------------------------------------------------------ serve

/// What the broker is told to do.
#[derive(Debug)]
pub struct ServeArgs {
    pub storage: String,
    pub stub: String,
    pub listen: String,
    pub advertise: Option<String>,
}

/// What was read of the broker's arguments.
pub struct ServeOptions {
    pub storage: Option<Seq<char>>,
    pub stub: Option<Seq<char>>,
    pub listen: Seq<char>,
    pub advertise: Option<Seq<char>>,
}

/// The broker's arguments, read one after the other. The last of each counts.
pub open spec fn serve_options(o: ServeOptions, args: Seq<Seq<char>>) -> Result<
    ServeOptions,
    Seq<char>,
>
    decreases args.len(),
{
    if args.len() == 0 {
        Ok(o)
    } else if args[0] == "--storage"@ {
        match value_of(args) {
            Ok(v) => serve_options(ServeOptions { storage: Some(v), ..o }, args.skip(2)),
            Err(why) => Err(why),
        }
    } else if args[0] == "--stub"@ {
        match value_of(args) {
            Ok(v) => serve_options(ServeOptions { stub: Some(v), ..o }, args.skip(2)),
            Err(why) => Err(why),
        }
    } else if args[0] == "--listen"@ {
        match value_of(args) {
            Ok(v) => serve_options(ServeOptions { listen: v, ..o }, args.skip(2)),
            Err(why) => Err(why),
        }
    } else if args[0] == "--advertise"@ {
        match value_of(args) {
            Ok(v) => serve_options(ServeOptions { advertise: Some(v), ..o }, args.skip(2)),
            Err(why) => Err(why),
        }
    } else {
        Err(unknown_argument(args[0]))
    }
}

/// The broker's arguments before any was read.
pub open spec fn no_serve_options() -> ServeOptions {
    ServeOptions { storage: None, stub: None, listen: DEFAULT_LISTEN@, advertise: None }
}

/// Whether the result is what the broker's arguments say. A storage file and a
/// stub must be named.
pub open spec fn is_serve_result(args: Seq<Seq<char>>, r: Result<ServeArgs, String>) -> bool {
    match serve_options(no_serve_options(), args) {
        Err(why) => r matches Err(e) && e@ == why,
        Ok(o) => match (o.storage, o.stub) {
            (None, _) => r matches Err(e) && e@ == "missing --storage"@,
            (Some(_), None) => r matches Err(e) && e@ == "missing --stub"@,
            (Some(storage), Some(stub)) => {
                &&& r matches Ok(a)
                &&& a.storage@ == storage
                &&& a.stub@ == stub
                &&& a.listen@ == o.listen
                &&& maybe_text(a.advertise) == o.advertise
            },
        },
    }
}

/// Reads the broker's arguments.
pub fn serve_cli(args: &Vec<String>) -> (r: Result<ServeArgs, String>)
    ensures
        is_serve_result(texts(args@), r),
{
    let mut storage: Option<String> = None;
    let mut stub: Option<String> = None;
    let mut listen: String = copy_text(DEFAULT_LISTEN);
    let mut advertise: Option<String> = None;
    let mut i: usize = 0;
    assert(texts(args@).skip(0) == texts(args@));
    while i < args.len()
        invariant
            i <= args.len(),
            serve_options(
                ServeOptions {
                    storage: maybe_text(storage),
                    stub: maybe_text(stub),
                    listen: listen@,
                    advertise: maybe_text(advertise),
                },
                texts(args@).skip(i as int),
            ) == serve_options(no_serve_options(), texts(args@)),
        decreases args.len() - i,
    {
        proof {
            next_args(args@, i as int);
        }
        let arg = args[i].as_str();
        let is_storage = same_text(arg, "--storage");
        let is_stub = same_text(arg, "--stub");
        let is_listen = same_text(arg, "--listen");
        if !is_storage && !is_stub && !is_listen && !same_text(arg, "--advertise") {
            return Err(unknown(arg));
        }
        match take(args, i) {
            Err(why) => {
                return Err(why);
            },
            Ok(v) => {
                if is_storage {
                    storage = Some(v);
                } else if is_stub {
                    stub = Some(v);
                } else if is_listen {
                    listen = v;
                } else {
                    advertise = Some(v);
                }
            },
        }
        i = i + 2;
    }
    match storage {
        None => Err(copy_text("missing --storage")),
        Some(storage) => match stub {
            None => Err(copy_text("missing --stub")),
            Some(stub) => Ok(ServeArgs { storage, stub, listen, advertise }),
        },
    }
}

// ---------------------------------------------------------- call, session

/// What a single call is told to do.
#[derive(Debug)]
pub struct CallArgs {
    pub db: String,
    pub sqls: Vec<String>,
}

/// The arguments of a call, read one after the other.
pub open spec fn call_options(
    db: Option<Seq<char>>,
    sqls: Seq<Seq<char>>,
    args: Seq<Seq<char>>,
) -> Result<(Option<Seq<char>>, Seq<Seq<char>>), Seq<char>>
    decreases args.len(),
{
    if args.len() == 0 {
        Ok((db, sqls))
    } else if args[0] == "--db"@ {
        match value_of(args) {
            Ok(v) => call_options(Some(v), sqls, args.skip(2)),
            Err(why) => Err(why),
        }
    } else if args[0] == "--sql"@ {
        match value_of(args) {
            Ok(v) => call_options(db, sqls.push(v), args.skip(2)),
            Err(why) => Err(why),
        }
    } else {
        Err(unknown_argument(args[0]))
    }
}

/// Whether the result is what the arguments of a call say. A database and a
/// statement must be named.
pub open spec fn is_call_result(args: Seq<Seq<char>>, r: Result<CallArgs, String>) -> bool {
    match call_options(None, seq![], args) {
        Err(why) => r matches Err(e) && e@ == why,
        Ok((None, _)) => r matches Err(e) && e@ == "missing --db"@,
        Ok((Some(db), sqls)) => if sqls.len() == 0 {
            r matches Err(e) && e@ == "missing --sql"@
        } else {
            r matches Ok(a) && a.db@ == db && texts(a.sqls@) == sqls
        },
    }
}

/// Reads the arguments of a call.
pub fn call_cli(args: &Vec<String>) -> (r: Result<CallArgs, String>)
    ensures
        is_call_result(texts(args@), r),
{
    let mut db: Option<String> = None;
    let mut sqls: Vec<String> = Vec::new();
    let mut i: usize = 0;
    assert(texts(args@).skip(0) == texts(args@));
    assert(texts(sqls@) == Seq::<Seq<char>>::empty());
    while i < args.len()
        invariant
            i <= args.len(),
            call_options(maybe_text(db), texts(sqls@), texts(args@).skip(i as int))
                == call_options(None, seq![], texts(args@)),
        decreases args.len() - i,
    {
        proof {
            next_args(args@, i as int);
        }
        let arg = args[i].as_str();
        let is_db = same_text(arg, "--db");
        if !is_db && !same_text(arg, "--sql") {
            return Err(unknown(arg));
        }
        match take(args, i) {
            Err(why) => {
                return Err(why);
            },
            Ok(v) => {
                if is_db {
                    db = Some(v);
                } else {
                    let ghost before = texts(sqls@);
                    sqls.push(v);
                    assert(texts(sqls@) == before.push(v@));
                }
            },
        }
        i = i + 2;
    }
    match db {
        None => Err(copy_text("missing --db")),
        Some(db) => if sqls.len() == 0 {
            Err(copy_text("missing --sql"))
        } else {
            Ok(CallArgs { db, sqls })
        },
    }
}

/// The arguments of a session, read one after the other.
pub open spec fn session_options(db: Option<Seq<char>>, args: Seq<Seq<char>>) -> Result<
    Option<Seq<char>>,
    Seq<char>,
>
    decreases args.len(),
{
    if args.len() == 0 {
        Ok(db)
    } else if args[0] == "--db"@ {
        match value_of(args) {
            Ok(v) => session_options(Some(v), args.skip(2)),
            Err(why) => Err(why),
        }
    } else {
        Err(unknown_argument(args[0]))
    }
}

/// Whether the result is what the arguments of a session say. A database must
/// be named.
pub open spec fn is_session_result(args: Seq<Seq<char>>, r: Result<String, String>) -> bool {
    match session_options(None, args) {
        Err(why) => r matches Err(e) && e@ == why,
        Ok(None) => r matches Err(e) && e@ == "missing --db"@,
        Ok(Some(db)) => r matches Ok(a) && a@ == db,
    }
}

/// Reads the arguments of a session.
pub fn session_cli(args: &Vec<String>) -> (r: Result<String, String>)
    ensures
        is_session_result(texts(args@), r),
{
    let mut db: Option<String> = None;
    let mut i: usize = 0;
    assert(texts(args@).skip(0) == texts(args@));
    while i < args.len()
        invariant
            i <= args.len(),
            session_options(maybe_text(db), texts(args@).skip(i as int)) == session_options(
                None,
                texts(args@),
            ),
        decreases args.len() - i,
    {
        proof {
            next_args(args@, i as int);
        }
        if !same_text(args[i].as_str(), "--db") {
            return Err(unknown(args[i].as_str()));
        }
        match take(args, i) {
            Err(why) => {
                return Err(why);
            },
            Ok(v) => {
                db = Some(v);
            },
        }
        i = i + 2;
    }
    match db {
        None => Err(copy_text("missing --db")),
        Some(db) => Ok(db),
    }
}

// ----------------------------------------------------------- hammer, storm

/// What a load process is told to do.
#[derive(Debug)]
pub struct HammerArgs {
    pub db: String,
    pub worker: u64,
    pub ops: u32,
    pub seed: u64,
}

/// What was read of a load process's arguments.
pub struct HammerOptions {
    pub db: Option<Seq<char>>,
    pub worker: Option<u64>,
    pub ops: u32,
    pub seed: Option<u64>,
}

/// How many operations a load process does, if nothing else is said.
pub const DEFAULT_OPS: u32 = 1000;

/// How many load processes a load test has, if nothing else is said.
pub const DEFAULT_APPS: u32 = 10;

/// The seed of a load process, if nothing else is said.
pub open spec fn default_seed(worker: u64) -> u64 {
    0xA5A5_5A5A ^ worker.wrapping_mul(0x9E37)
}

/// A load process's arguments, read one after the other.
pub open spec fn hammer_options(o: HammerOptions, args: Seq<Seq<char>>) -> Result<
    HammerOptions,
    Seq<char>,
>
    decreases args.len(),
{
    if args.len() == 0 {
        Ok(o)
    } else if args[0] == "--db"@ {
        match value_of(args) {
            Ok(v) => hammer_options(HammerOptions { db: Some(v), ..o }, args.skip(2)),
            Err(why) => Err(why),
        }
    } else if args[0] == "--worker"@ {
        match number_of(args, u64::MAX as nat) {
            Ok(n) => hammer_options(HammerOptions { worker: Some(n as u64), ..o }, args.skip(2)),
            Err(why) => Err(why),
        }
    } else if args[0] == "--ops"@ {
        match number_of(args, u32::MAX as nat) {
            Ok(n) => hammer_options(HammerOptions { ops: n as u32, ..o }, args.skip(2)),
            Err(why) => Err(why),
        }
    } else if args[0] == "--seed"@ {
        match number_of(args, u64::MAX as nat) {
            Ok(n) => hammer_options(HammerOptions { seed: Some(n as u64), ..o }, args.skip(2)),
            Err(why) => Err(why),
        }
    } else {
        Err(unknown_argument(args[0]))
    }
}

/// A load process's arguments before any was read.
pub open spec fn no_hammer_options() -> HammerOptions {
    HammerOptions { db: None, worker: None, ops: DEFAULT_OPS, seed: None }
}

/// Whether the result is what a load process's arguments say. A database and a
/// number for the process must be given.
pub open spec fn is_hammer_result(args: Seq<Seq<char>>, r: Result<HammerArgs, String>) -> bool {
    match hammer_options(no_hammer_options(), args) {
        Err(why) => r matches Err(e) && e@ == why,
        Ok(o) => match (o.db, o.worker) {
            (None, _) => r matches Err(e) && e@ == "missing --db"@,
            (Some(_), None) => r matches Err(e) && e@ == "missing --worker"@,
            (Some(db), Some(worker)) => {
                &&& r matches Ok(a)
                &&& a.db@ == db
                &&& a.worker == worker
                &&& a.ops == o.ops
                &&& a.seed == match o.seed {
                    Some(seed) => seed,
                    None => default_seed(worker),
                }
            },
        },
    }
}

/// Reads a load process's arguments.
pub fn hammer_cli(args: &Vec<String>) -> (r: Result<HammerArgs, String>)
    ensures
        is_hammer_result(texts(args@), r),
{
    let mut db: Option<String> = None;
    let mut worker: Option<u64> = None;
    let mut ops: u32 = DEFAULT_OPS;
    let mut seed: Option<u64> = None;
    let mut i: usize = 0;
    assert(texts(args@).skip(0) == texts(args@));
    while i < args.len()
        invariant
            i <= args.len(),
            hammer_options(
                HammerOptions { db: maybe_text(db), worker, ops, seed },
                texts(args@).skip(i as int),
            ) == hammer_options(no_hammer_options(), texts(args@)),
        decreases args.len() - i,
    {
        proof {
            next_args(args@, i as int);
        }
        let arg = args[i].as_str();
        if same_text(arg, "--db") {
            match take(args, i) {
                Ok(v) => {
                    db = Some(v);
                },
                Err(why) => {
                    return Err(why);
                },
            }
        } else if same_text(arg, "--worker") {
            match take_u64(args, i) {
                Ok(n) => {
                    worker = Some(n);
                },
                Err(why) => {
                    return Err(why);
                },
            }
        } else if same_text(arg, "--ops") {
            match take_u32(args, i) {
                Ok(n) => {
                    ops = n;
                },
                Err(why) => {
                    return Err(why);
                },
            }
        } else if same_text(arg, "--seed") {
            match take_u64(args, i) {
                Ok(n) => {
                    seed = Some(n);
                },
                Err(why) => {
                    return Err(why);
                },
            }
        } else {
            return Err(unknown(arg));
        }
        i = i + 2;
    }
    match db {
        None => Err(copy_text("missing --db")),
        Some(db) => match worker {
            None => Err(copy_text("missing --worker")),
            Some(worker) => {
                let seed: u64 = match seed {
                    Some(seed) => seed,
                    None => 0xA5A5_5A5A ^ worker.wrapping_mul(0x9E37),
                };
                Ok(HammerArgs { db, worker, ops, seed })
            },
        },
    }
}

/// What a load test is told to do.
#[derive(Debug)]
pub struct StormArgs {
    pub apps: u32,
    pub ops: u32,
    pub dir: Option<String>,
}

/// What was read of a load test's arguments.
pub struct StormOptions {
    pub apps: u32,
    pub ops: u32,
    pub dir: Option<Seq<char>>,
}

/// A load test's arguments, read one after the other.
pub open spec fn storm_options(o: StormOptions, args: Seq<Seq<char>>) -> Result<
    StormOptions,
    Seq<char>,
>
    decreases args.len(),
{
    if args.len() == 0 {
        Ok(o)
    } else if args[0] == "--apps"@ {
        match number_of(args, u32::MAX as nat) {
            Ok(n) => storm_options(StormOptions { apps: n as u32, ..o }, args.skip(2)),
            Err(why) => Err(why),
        }
    } else if args[0] == "--ops"@ {
        match number_of(args, u32::MAX as nat) {
            Ok(n) => storm_options(StormOptions { ops: n as u32, ..o }, args.skip(2)),
            Err(why) => Err(why),
        }
    } else if args[0] == "--dir"@ {
        match value_of(args) {
            Ok(v) => storm_options(StormOptions { dir: Some(v), ..o }, args.skip(2)),
            Err(why) => Err(why),
        }
    } else {
        Err(unknown_argument(args[0]))
    }
}

/// A load test's arguments before any was read.
pub open spec fn no_storm_options() -> StormOptions {
    StormOptions { apps: DEFAULT_APPS, ops: DEFAULT_OPS, dir: None }
}

/// Whether the result is what a load test's arguments say.
pub open spec fn is_storm_result(args: Seq<Seq<char>>, r: Result<StormArgs, String>) -> bool {
    match storm_options(no_storm_options(), args) {
        Err(why) => r matches Err(e) && e@ == why,
        Ok(o) => {
            &&& r matches Ok(a)
            &&& a.apps == o.apps
            &&& a.ops == o.ops
            &&& maybe_text(a.dir) == o.dir
        },
    }
}

/// Reads a load test's arguments.
pub fn storm_cli(args: &Vec<String>) -> (r: Result<StormArgs, String>)
    ensures
        is_storm_result(texts(args@), r),
{
    let mut apps: u32 = DEFAULT_APPS;
    let mut ops: u32 = DEFAULT_OPS;
    let mut dir: Option<String> = None;
    let mut i: usize = 0;
    assert(texts(args@).skip(0) == texts(args@));
    while i < args.len()
        invariant
            i <= args.len(),
            storm_options(
                StormOptions { apps, ops, dir: maybe_text(dir) },
                texts(args@).skip(i as int),
            ) == storm_options(no_storm_options(), texts(args@)),
        decreases args.len() - i,
    {
        proof {
            next_args(args@, i as int);
        }
        let arg = args[i].as_str();
        if same_text(arg, "--apps") {
            match take_u32(args, i) {
                Ok(n) => {
                    apps = n;
                },
                Err(why) => {
                    return Err(why);
                },
            }
        } else if same_text(arg, "--ops") {
            match take_u32(args, i) {
                Ok(n) => {
                    ops = n;
                },
                Err(why) => {
                    return Err(why);
                },
            }
        } else if same_text(arg, "--dir") {
            match take(args, i) {
                Ok(v) => {
                    dir = Some(v);
                },
                Err(why) => {
                    return Err(why);
                },
            }
        } else {
            return Err(unknown(arg));
        }
        i = i + 2;
    }
    Ok(StormArgs { apps, ops, dir })
}

// --------------------------------------------------------------- dispatch

/// What the program is told to do.
#[derive(Debug)]
#[allow(inconsistent_fields)]
pub enum Command {
    Serve { args: ServeArgs },
    Call { args: CallArgs },
    Session { db: String },
    Hammer { args: HammerArgs },
    Storm { args: StormArgs },
    Version,
    Help,
}

/// What is said of a command line that names no command.
pub open spec fn missing_command() -> Seq<char> {
    "missing command\n"@ + USAGE@
}

/// What is said of a command that is none.
pub open spec fn unknown_command(command: Seq<char>) -> Seq<char> {
    "unknown command "@ + command + "\n"@ + USAGE@
}

/// Whether the result is what the command line says.
pub open spec fn is_command(args: Seq<Seq<char>>, r: Result<Command, String>) -> bool {
    if args.len() == 0 {
        r matches Err(e) && e@ == missing_command()
    } else {
        let rest = args.drop_first();
        if args[0] == "serve"@ {
            match r {
                Ok(Command::Serve { args: a }) => is_serve_result(rest, Ok(a)),
                Ok(_) => false,
                Err(e) => is_serve_result(rest, Err(e)),
            }
        } else if args[0] == "call"@ {
            match r {
                Ok(Command::Call { args: a }) => is_call_result(rest, Ok(a)),
                Ok(_) => false,
                Err(e) => is_call_result(rest, Err(e)),
            }
        } else if args[0] == "session"@ {
            match r {
                Ok(Command::Session { db }) => is_session_result(rest, Ok(db)),
                Ok(_) => false,
                Err(e) => is_session_result(rest, Err(e)),
            }
        } else if args[0] == "hammer"@ {
            match r {
                Ok(Command::Hammer { args: a }) => is_hammer_result(rest, Ok(a)),
                Ok(_) => false,
                Err(e) => is_hammer_result(rest, Err(e)),
            }
        } else if args[0] == "storm"@ {
            match r {
                Ok(Command::Storm { args: a }) => is_storm_result(rest, Ok(a)),
                Ok(_) => false,
                Err(e) => is_storm_result(rest, Err(e)),
            }
        } else if args[0] == "version"@ {
            r == Ok::<Command, String>(Command::Version)
        } else if args[0] == "-h"@ || args[0] == "--help"@ {
            r == Ok::<Command, String>(Command::Help)
        } else {
            r matches Err(e) && e@ == unknown_command(args[0])
        }
    }
}

fn rest_of(args: &Vec<String>) -> (out: Vec<String>)
    requires
        args.len() > 0,
    ensures
        texts(out@) == texts(args@).drop_first(),
{
    let mut out: Vec<String> = Vec::new();
    let mut i: usize = 1;
    while i < args.len()
        invariant
            1 <= i <= args.len(),
            texts(out@) == texts(args@).subrange(1, i as int),
        decreases args.len() - i,
    {
        let ghost before = texts(out@);
        out.push(args[i].clone());
        assert(texts(out@) == before.push(args@[i as int]@));
        assert(texts(args@).subrange(1, i + 1) == texts(args@).subrange(1, i as int).push(
            args@[i as int]@,
        ));
        i = i + 1;
    }
    assert(texts(args@).subrange(1, i as int) == texts(args@).drop_first());
    out
}

/// Reads the command line, without the name of the program.
pub fn dispatch(args: &Vec<String>) -> (r: Result<Command, String>)
    ensures
        is_command(texts(args@), r),
{
    if args.len() == 0 {
        let mut why = copy_text("missing command\n");
        why.append(USAGE);
        return Err(why);
    }
    let command = args[0].as_str();
    assert(texts(args@)[0] == command@);
    let rest = rest_of(args);
    if same_text(command, "serve") {
        match serve_cli(&rest) {
            Ok(args) => Ok(Command::Serve { args }),
            Err(why) => Err(why),
        }
    } else if same_text(command, "call") {
        match call_cli(&rest) {
            Ok(args) => Ok(Command::Call { args }),
            Err(why) => Err(why),
        }
    } else if same_text(command, "session") {
        match session_cli(&rest) {
            Ok(db) => Ok(Command::Session { db }),
            Err(why) => Err(why),
        }
    } else if same_text(command, "hammer") {
        match hammer_cli(&rest) {
            Ok(args) => Ok(Command::Hammer { args }),
            Err(why) => Err(why),
        }
    } else if same_text(command, "storm") {
        match storm_cli(&rest) {
            Ok(args) => Ok(Command::Storm { args }),
            Err(why) => Err(why),
        }
    } else if same_text(command, "version") {
        Ok(Command::Version)
    } else if same_text(command, "-h") || same_text(command, "--help") {
        Ok(Command::Help)
    } else {
        let mut why = copy_text("unknown command ");
        why.append(command);
        why.append("\n");
        why.append(USAGE);
        Err(why)
    }
}

/// The arguments with which a load test starts its broker are read as the files
/// that it names.
pub proof fn a_load_test_starts_its_broker(storage: Seq<char>, stub: Seq<char>)
    ensures
        serve_args(storage, stub)[0] == "serve"@,
        serve_options(no_serve_options(), serve_args(storage, stub).drop_first()) == Ok::<
            ServeOptions,
            Seq<char>,
        >(ServeOptions { storage: Some(storage), stub: Some(stub), ..no_serve_options() }),
{
    reveal_strlit("--storage");
    reveal_strlit("--stub");
    assert("--storage"@.len() != "--stub"@.len());
    let args = serve_args(storage, stub).drop_first();
    let rest = args.skip(2);
    assert(rest[0] == "--stub"@);
    let o = ServeOptions { storage: Some(storage), ..no_serve_options() };
    let done = ServeOptions { stub: Some(stub), ..o };
    assert(rest.skip(2).len() == 0);
    assert(serve_options(done, rest.skip(2)) == Ok::<ServeOptions, Seq<char>>(done));
    assert(serve_options(o, rest) == Ok::<ServeOptions, Seq<char>>(done));
}

/// The arguments with which a load test starts a load process are read as the
/// stub, the number, the operations and the seed that it means.
pub proof fn a_load_test_starts_its_processes(stub: Seq<char>, worker: u32, ops: u32)
    ensures
        hammer_args(stub, worker, ops)[0] == "hammer"@,
        hammer_options(no_hammer_options(), hammer_args(stub, worker, ops).drop_first()) == Ok::<
            HammerOptions,
            Seq<char>,
        >(
            HammerOptions {
                db: Some(stub),
                worker: Some(worker as u64),
                ops,
                seed: Some(worker_seed(worker) as u64),
            },
        ),
{
    reveal_strlit("--db");
    reveal_strlit("--worker");
    reveal_strlit("--ops");
    reveal_strlit("--seed");
    assert("--db"@.len() == 4);
    assert("--worker"@.len() == 8);
    assert("--ops"@.len() == 5);
    assert("--seed"@.len() == 6);
    decimal_reads_back(worker as nat, u64::MAX as nat);
    decimal_reads_back(ops as nat, u32::MAX as nat);
    decimal_reads_back(worker_seed(worker) as nat, u64::MAX as nat);
    let a1 = hammer_args(stub, worker, ops).drop_first();
    let a2 = a1.skip(2);
    let a3 = a2.skip(2);
    let a4 = a3.skip(2);
    let a5 = a4.skip(2);
    assert(a2[0] == "--worker"@ && a2[1] == decimal(worker as nat));
    assert(a3[0] == "--ops"@ && a3[1] == decimal(ops as nat));
    assert(a4[0] == "--seed"@ && a4[1] == decimal(worker_seed(worker) as nat));
    assert(a5.len() == 0);
    let o1 = HammerOptions { db: Some(stub), ..no_hammer_options() };
    let o2 = HammerOptions { worker: Some(worker as u64), ..o1 };
    let o3 = HammerOptions { ops, ..o2 };
    let o4 = HammerOptions { seed: Some(worker_seed(worker) as u64), ..o3 };
    assert(hammer_options(o4, a5) == Ok::<HammerOptions, Seq<char>>(o4));
    assert(hammer_options(o3, a4) == Ok::<HammerOptions, Seq<char>>(o4));
    assert(hammer_options(o2, a3) == Ok::<HammerOptions, Seq<char>>(o4));
    assert(hammer_options(o1, a2) == Ok::<HammerOptions, Seq<char>>(o4));
}

} // verus!
