//! What the command line promises: every option says what the argument behind it
//! says, in any order and the last one of its kind, and anything else is refused.
use vstd::prelude::*;

use crate::cli::{
    call_options, hammer_options, is_call_result, is_command, is_hammer_result, is_serve_result,
    is_session_result, is_storm_result, no_hammer_options, no_serve_options, no_storm_options,
    serve_options, session_options, storm_options, CallArgs, Command, HammerArgs, HammerOptions,
    ServeArgs, ServeOptions, StormArgs, StormOptions, USAGE,
};
use crate::number::{number_error_text, unsigned_value};
use crate::text::texts;

verus! {

/// An option and its value behind other arguments.
pub open spec fn with_option(args: Seq<Seq<char>>, flag: Seq<char>, value: Seq<char>) -> Seq<
    Seq<char>,
> {
    args.push(flag).push(value)
}

proof fn flags_differ()
    ensures
        "--storage"@ != "--stub"@,
        "--storage"@ != "--listen"@,
        "--storage"@ != "--advertise"@,
        "--storage"@ != "--db"@,
        "--storage"@ != "--sql"@,
        "--storage"@ != "--worker"@,
        "--storage"@ != "--ops"@,
        "--storage"@ != "--seed"@,
        "--storage"@ != "--apps"@,
        "--storage"@ != "--dir"@,
        "--stub"@ != "--listen"@,
        "--stub"@ != "--advertise"@,
        "--stub"@ != "--db"@,
        "--stub"@ != "--sql"@,
        "--stub"@ != "--worker"@,
        "--stub"@ != "--ops"@,
        "--stub"@ != "--seed"@,
        "--stub"@ != "--apps"@,
        "--stub"@ != "--dir"@,
        "--listen"@ != "--advertise"@,
        "--listen"@ != "--db"@,
        "--listen"@ != "--sql"@,
        "--listen"@ != "--worker"@,
        "--listen"@ != "--ops"@,
        "--listen"@ != "--seed"@,
        "--listen"@ != "--apps"@,
        "--listen"@ != "--dir"@,
        "--advertise"@ != "--db"@,
        "--advertise"@ != "--sql"@,
        "--advertise"@ != "--worker"@,
        "--advertise"@ != "--ops"@,
        "--advertise"@ != "--seed"@,
        "--advertise"@ != "--apps"@,
        "--advertise"@ != "--dir"@,
        "--db"@ != "--sql"@,
        "--db"@ != "--worker"@,
        "--db"@ != "--ops"@,
        "--db"@ != "--seed"@,
        "--db"@ != "--apps"@,
        "--db"@ != "--dir"@,
        "--sql"@ != "--worker"@,
        "--sql"@ != "--ops"@,
        "--sql"@ != "--seed"@,
        "--sql"@ != "--apps"@,
        "--sql"@ != "--dir"@,
        "--worker"@ != "--ops"@,
        "--worker"@ != "--seed"@,
        "--worker"@ != "--apps"@,
        "--worker"@ != "--dir"@,
        "--ops"@ != "--seed"@,
        "--ops"@ != "--apps"@,
        "--ops"@ != "--dir"@,
        "--seed"@ != "--apps"@,
        "--seed"@ != "--dir"@,
        "--apps"@ != "--dir"@,
{
    reveal_strlit("--storage");
    reveal_strlit("--stub");
    reveal_strlit("--listen");
    reveal_strlit("--advertise");
    reveal_strlit("--db");
    reveal_strlit("--sql");
    reveal_strlit("--worker");
    reveal_strlit("--ops");
    reveal_strlit("--seed");
    reveal_strlit("--apps");
    reveal_strlit("--dir");
    assert("--storage"@.len() != "--stub"@.len());
    assert("--storage"@.len() != "--listen"@.len());
    assert("--storage"@.len() != "--advertise"@.len());
    assert("--storage"@.len() != "--db"@.len());
    assert("--storage"@.len() != "--sql"@.len());
    assert("--storage"@.len() != "--worker"@.len());
    assert("--storage"@.len() != "--ops"@.len());
    assert("--storage"@.len() != "--seed"@.len());
    assert("--storage"@.len() != "--apps"@.len());
    assert("--storage"@.len() != "--dir"@.len());
    assert("--stub"@.len() != "--listen"@.len());
    assert("--stub"@.len() != "--advertise"@.len());
    assert("--stub"@.len() != "--db"@.len());
    assert("--stub"@.len() != "--sql"@.len());
    assert("--stub"@.len() != "--worker"@.len());
    assert("--stub"@.len() != "--ops"@.len());
    assert("--stub"@[3] != "--seed"@[3]);
    assert("--stub"@[2] != "--apps"@[2]);
    assert("--stub"@.len() != "--dir"@.len());
    assert("--listen"@.len() != "--advertise"@.len());
    assert("--listen"@.len() != "--db"@.len());
    assert("--listen"@.len() != "--sql"@.len());
    assert("--listen"@[2] != "--worker"@[2]);
    assert("--listen"@.len() != "--ops"@.len());
    assert("--listen"@.len() != "--seed"@.len());
    assert("--listen"@.len() != "--apps"@.len());
    assert("--listen"@.len() != "--dir"@.len());
    assert("--advertise"@.len() != "--db"@.len());
    assert("--advertise"@.len() != "--sql"@.len());
    assert("--advertise"@.len() != "--worker"@.len());
    assert("--advertise"@.len() != "--ops"@.len());
    assert("--advertise"@.len() != "--seed"@.len());
    assert("--advertise"@.len() != "--apps"@.len());
    assert("--advertise"@.len() != "--dir"@.len());
    assert("--db"@.len() != "--sql"@.len());
    assert("--db"@.len() != "--worker"@.len());
    assert("--db"@.len() != "--ops"@.len());
    assert("--db"@.len() != "--seed"@.len());
    assert("--db"@.len() != "--apps"@.len());
    assert("--db"@.len() != "--dir"@.len());
    assert("--sql"@.len() != "--worker"@.len());
    assert("--sql"@[2] != "--ops"@[2]);
    assert("--sql"@.len() != "--seed"@.len());
    assert("--sql"@.len() != "--apps"@.len());
    assert("--sql"@[2] != "--dir"@[2]);
    assert("--worker"@.len() != "--ops"@.len());
    assert("--worker"@.len() != "--seed"@.len());
    assert("--worker"@.len() != "--apps"@.len());
    assert("--worker"@.len() != "--dir"@.len());
    assert("--ops"@.len() != "--seed"@.len());
    assert("--ops"@.len() != "--apps"@.len());
    assert("--ops"@[2] != "--dir"@[2]);
    assert("--seed"@[2] != "--apps"@[2]);
    assert("--seed"@.len() != "--dir"@.len());
    assert("--apps"@.len() != "--dir"@.len());
}

/// One more option of `serve` replaces what was said of it before and leaves the
/// rest; one without a value, and an argument that is no option, are refused.
pub proof fn one_more_option_of_serve(
    o: ServeOptions,
    args: Seq<Seq<char>>,
    value: Seq<char>,
    p: ServeOptions,
)
    requires
        serve_options(o, args) == Ok::<ServeOptions, Seq<char>>(p),
    ensures
        serve_options(o, with_option(args, "--storage"@, value)) == Ok::<ServeOptions, Seq<char>>(ServeOptions { storage: Some(value), ..p }),
        serve_options(o, args.push("--storage"@)) == Err::<ServeOptions, Seq<char>>(
            "missing value for "@ + "--storage"@,
        ),
        serve_options(o, with_option(args, "--stub"@, value)) == Ok::<ServeOptions, Seq<char>>(ServeOptions { stub: Some(value), ..p }),
        serve_options(o, args.push("--stub"@)) == Err::<ServeOptions, Seq<char>>(
            "missing value for "@ + "--stub"@,
        ),
        serve_options(o, with_option(args, "--listen"@, value)) == Ok::<ServeOptions, Seq<char>>(ServeOptions { listen: value, ..p }),
        serve_options(o, args.push("--listen"@)) == Err::<ServeOptions, Seq<char>>(
            "missing value for "@ + "--listen"@,
        ),
        serve_options(o, with_option(args, "--advertise"@, value)) == Ok::<ServeOptions, Seq<char>>(ServeOptions { advertise: Some(value), ..p }),
        serve_options(o, args.push("--advertise"@)) == Err::<ServeOptions, Seq<char>>(
            "missing value for "@ + "--advertise"@,
        ),
        value != "--storage"@ && value != "--stub"@ && value != "--listen"@ && value != "--advertise"@ ==> serve_options(
            o,
            args.push(value),
        ) == Err::<ServeOptions, Seq<char>>("unknown argument "@ + value),
    decreases args.len(),
{
    flags_differ();
    reveal_with_fuel(serve_options, 2);
    if args.len() == 0 {
        assert(with_option(args, "--storage"@, value).skip(2) == Seq::<Seq<char>>::empty());
        assert(with_option(args, "--storage"@, value)[1] == value);
        assert(with_option(args, "--stub"@, value).skip(2) == Seq::<Seq<char>>::empty());
        assert(with_option(args, "--stub"@, value)[1] == value);
        assert(with_option(args, "--listen"@, value).skip(2) == Seq::<Seq<char>>::empty());
        assert(with_option(args, "--listen"@, value)[1] == value);
        assert(with_option(args, "--advertise"@, value).skip(2) == Seq::<Seq<char>>::empty());
        assert(with_option(args, "--advertise"@, value)[1] == value);
    } else {
        assert(args.len() >= 2);
        let rest = args.skip(2);
        assert(with_option(args, "--storage"@, value).skip(2) == with_option(rest, "--storage"@, value));
        assert(args.push("--storage"@).skip(2) == rest.push("--storage"@));
        assert(with_option(args, "--stub"@, value).skip(2) == with_option(rest, "--stub"@, value));
        assert(args.push("--stub"@).skip(2) == rest.push("--stub"@));
        assert(with_option(args, "--listen"@, value).skip(2) == with_option(rest, "--listen"@, value));
        assert(args.push("--listen"@).skip(2) == rest.push("--listen"@));
        assert(with_option(args, "--advertise"@, value).skip(2) == with_option(rest, "--advertise"@, value));
        assert(args.push("--advertise"@).skip(2) == rest.push("--advertise"@));
        assert(args.push(value).skip(2) == rest.push(value));
        if args[0] == "--storage"@ {
            one_more_option_of_serve(ServeOptions { storage: Some(args[1]), ..o }, rest, value, p);
        } else if args[0] == "--stub"@ {
            one_more_option_of_serve(ServeOptions { stub: Some(args[1]), ..o }, rest, value, p);
        } else if args[0] == "--listen"@ {
            one_more_option_of_serve(ServeOptions { listen: args[1], ..o }, rest, value, p);
        } else {
            one_more_option_of_serve(ServeOptions { advertise: Some(args[1]), ..o }, rest, value, p);
        }
    }
}

/// One more option of `hammer` replaces what was said of it before and leaves the
/// rest; one without a value, and an argument that is no option, are refused.
pub proof fn one_more_option_of_hammer(
    o: HammerOptions,
    args: Seq<Seq<char>>,
    value: Seq<char>,
    p: HammerOptions,
)
    requires
        hammer_options(o, args) == Ok::<HammerOptions, Seq<char>>(p),
    ensures
        hammer_options(o, with_option(args, "--db"@, value)) == Ok::<HammerOptions, Seq<char>>(HammerOptions { db: Some(value), ..p }),
        hammer_options(o, args.push("--db"@)) == Err::<HammerOptions, Seq<char>>(
            "missing value for "@ + "--db"@,
        ),
        hammer_options(o, with_option(args, "--worker"@, value)) == match unsigned_value(value, u64::MAX as nat) {
                Ok(n) => Ok::<HammerOptions, Seq<char>>(HammerOptions { worker: Some(n as u64), ..p }),
                Err(e) => Err::<HammerOptions, Seq<char>>(number_error_text(e)),
            },
        hammer_options(o, args.push("--worker"@)) == Err::<HammerOptions, Seq<char>>(
            "missing value for "@ + "--worker"@,
        ),
        hammer_options(o, with_option(args, "--ops"@, value)) == match unsigned_value(value, u32::MAX as nat) {
                Ok(n) => Ok::<HammerOptions, Seq<char>>(HammerOptions { ops: n as u32, ..p }),
                Err(e) => Err::<HammerOptions, Seq<char>>(number_error_text(e)),
            },
        hammer_options(o, args.push("--ops"@)) == Err::<HammerOptions, Seq<char>>(
            "missing value for "@ + "--ops"@,
        ),
        hammer_options(o, with_option(args, "--seed"@, value)) == match unsigned_value(value, u64::MAX as nat) {
                Ok(n) => Ok::<HammerOptions, Seq<char>>(HammerOptions { seed: Some(n as u64), ..p }),
                Err(e) => Err::<HammerOptions, Seq<char>>(number_error_text(e)),
            },
        hammer_options(o, args.push("--seed"@)) == Err::<HammerOptions, Seq<char>>(
            "missing value for "@ + "--seed"@,
        ),
        value != "--db"@ && value != "--worker"@ && value != "--ops"@ && value != "--seed"@ ==> hammer_options(
            o,
            args.push(value),
        ) == Err::<HammerOptions, Seq<char>>("unknown argument "@ + value),
    decreases args.len(),
{
    flags_differ();
    reveal_with_fuel(hammer_options, 2);
    if args.len() == 0 {
        assert(with_option(args, "--db"@, value).skip(2) == Seq::<Seq<char>>::empty());
        assert(with_option(args, "--db"@, value)[1] == value);
        assert(with_option(args, "--worker"@, value).skip(2) == Seq::<Seq<char>>::empty());
        assert(with_option(args, "--worker"@, value)[1] == value);
        assert(with_option(args, "--ops"@, value).skip(2) == Seq::<Seq<char>>::empty());
        assert(with_option(args, "--ops"@, value)[1] == value);
        assert(with_option(args, "--seed"@, value).skip(2) == Seq::<Seq<char>>::empty());
        assert(with_option(args, "--seed"@, value)[1] == value);
    } else {
        assert(args.len() >= 2);
        let rest = args.skip(2);
        assert(with_option(args, "--db"@, value).skip(2) == with_option(rest, "--db"@, value));
        assert(args.push("--db"@).skip(2) == rest.push("--db"@));
        assert(with_option(args, "--worker"@, value).skip(2) == with_option(rest, "--worker"@, value));
        assert(args.push("--worker"@).skip(2) == rest.push("--worker"@));
        assert(with_option(args, "--ops"@, value).skip(2) == with_option(rest, "--ops"@, value));
        assert(args.push("--ops"@).skip(2) == rest.push("--ops"@));
        assert(with_option(args, "--seed"@, value).skip(2) == with_option(rest, "--seed"@, value));
        assert(args.push("--seed"@).skip(2) == rest.push("--seed"@));
        assert(args.push(value).skip(2) == rest.push(value));
        if args[0] == "--db"@ {
            one_more_option_of_hammer(HammerOptions { db: Some(args[1]), ..o }, rest, value, p);
        } else if args[0] == "--worker"@ {
            one_more_option_of_hammer(HammerOptions { worker: Some(unsigned_value(args[1], u64::MAX as nat)->Ok_0 as u64), ..o }, rest, value, p);
        } else if args[0] == "--ops"@ {
            one_more_option_of_hammer(HammerOptions { ops: unsigned_value(args[1], u32::MAX as nat)->Ok_0 as u32, ..o }, rest, value, p);
        } else {
            one_more_option_of_hammer(HammerOptions { seed: Some(unsigned_value(args[1], u64::MAX as nat)->Ok_0 as u64), ..o }, rest, value, p);
        }
    }
}

/// One more option of `storm` replaces what was said of it before and leaves the
/// rest; one without a value, and an argument that is no option, are refused.
pub proof fn one_more_option_of_storm(
    o: StormOptions,
    args: Seq<Seq<char>>,
    value: Seq<char>,
    p: StormOptions,
)
    requires
        storm_options(o, args) == Ok::<StormOptions, Seq<char>>(p),
    ensures
        storm_options(o, with_option(args, "--apps"@, value)) == match unsigned_value(value, u32::MAX as nat) {
                Ok(n) => Ok::<StormOptions, Seq<char>>(StormOptions { apps: n as u32, ..p }),
                Err(e) => Err::<StormOptions, Seq<char>>(number_error_text(e)),
            },
        storm_options(o, args.push("--apps"@)) == Err::<StormOptions, Seq<char>>(
            "missing value for "@ + "--apps"@,
        ),
        storm_options(o, with_option(args, "--ops"@, value)) == match unsigned_value(value, u32::MAX as nat) {
                Ok(n) => Ok::<StormOptions, Seq<char>>(StormOptions { ops: n as u32, ..p }),
                Err(e) => Err::<StormOptions, Seq<char>>(number_error_text(e)),
            },
        storm_options(o, args.push("--ops"@)) == Err::<StormOptions, Seq<char>>(
            "missing value for "@ + "--ops"@,
        ),
        storm_options(o, with_option(args, "--dir"@, value)) == Ok::<StormOptions, Seq<char>>(StormOptions { dir: Some(value), ..p }),
        storm_options(o, args.push("--dir"@)) == Err::<StormOptions, Seq<char>>(
            "missing value for "@ + "--dir"@,
        ),
        value != "--apps"@ && value != "--ops"@ && value != "--dir"@ ==> storm_options(
            o,
            args.push(value),
        ) == Err::<StormOptions, Seq<char>>("unknown argument "@ + value),
    decreases args.len(),
{
    flags_differ();
    reveal_with_fuel(storm_options, 2);
    if args.len() == 0 {
        assert(with_option(args, "--apps"@, value).skip(2) == Seq::<Seq<char>>::empty());
        assert(with_option(args, "--apps"@, value)[1] == value);
        assert(with_option(args, "--ops"@, value).skip(2) == Seq::<Seq<char>>::empty());
        assert(with_option(args, "--ops"@, value)[1] == value);
        assert(with_option(args, "--dir"@, value).skip(2) == Seq::<Seq<char>>::empty());
        assert(with_option(args, "--dir"@, value)[1] == value);
    } else {
        assert(args.len() >= 2);
        let rest = args.skip(2);
        assert(with_option(args, "--apps"@, value).skip(2) == with_option(rest, "--apps"@, value));
        assert(args.push("--apps"@).skip(2) == rest.push("--apps"@));
        assert(with_option(args, "--ops"@, value).skip(2) == with_option(rest, "--ops"@, value));
        assert(args.push("--ops"@).skip(2) == rest.push("--ops"@));
        assert(with_option(args, "--dir"@, value).skip(2) == with_option(rest, "--dir"@, value));
        assert(args.push("--dir"@).skip(2) == rest.push("--dir"@));
        assert(args.push(value).skip(2) == rest.push(value));
        if args[0] == "--apps"@ {
            one_more_option_of_storm(StormOptions { apps: unsigned_value(args[1], u32::MAX as nat)->Ok_0 as u32, ..o }, rest, value, p);
        } else if args[0] == "--ops"@ {
            one_more_option_of_storm(StormOptions { ops: unsigned_value(args[1], u32::MAX as nat)->Ok_0 as u32, ..o }, rest, value, p);
        } else {
            one_more_option_of_storm(StormOptions { dir: Some(args[1]), ..o }, rest, value, p);
        }
    }
}

/// One more option of `call` names the database or adds a statement behind the
/// others; one without a value, and an argument that is no option, are refused.
pub proof fn one_more_option_of_call(
    db: Option<Seq<char>>,
    sqls: Seq<Seq<char>>,
    args: Seq<Seq<char>>,
    value: Seq<char>,
    p: (Option<Seq<char>>, Seq<Seq<char>>),
)
    requires
        call_options(db, sqls, args) == Ok::<(Option<Seq<char>>, Seq<Seq<char>>), Seq<char>>(p),
    ensures
        call_options(db, sqls, with_option(args, "--db"@, value)) == Ok::<
            (Option<Seq<char>>, Seq<Seq<char>>),
            Seq<char>,
        >((Some(value), p.1)),
        call_options(db, sqls, with_option(args, "--sql"@, value)) == Ok::<
            (Option<Seq<char>>, Seq<Seq<char>>),
            Seq<char>,
        >((p.0, p.1.push(value))),
        call_options(db, sqls, args.push("--db"@)) == Err::<
            (Option<Seq<char>>, Seq<Seq<char>>),
            Seq<char>,
        >("missing value for "@ + "--db"@),
        call_options(db, sqls, args.push("--sql"@)) == Err::<
            (Option<Seq<char>>, Seq<Seq<char>>),
            Seq<char>,
        >("missing value for "@ + "--sql"@),
        value != "--db"@ && value != "--sql"@ ==> call_options(db, sqls, args.push(value)) == Err::<
            (Option<Seq<char>>, Seq<Seq<char>>),
            Seq<char>,
        >("unknown argument "@ + value),
    decreases args.len(),
{
    flags_differ();
    reveal_with_fuel(call_options, 2);
    if args.len() == 0 {
        assert(with_option(args, "--db"@, value).skip(2) == Seq::<Seq<char>>::empty());
        assert(with_option(args, "--sql"@, value).skip(2) == Seq::<Seq<char>>::empty());
        assert(with_option(args, "--db"@, value)[1] == value);
        assert(with_option(args, "--sql"@, value)[1] == value);
    } else {
        assert(args.len() >= 2);
        let rest = args.skip(2);
        assert(with_option(args, "--db"@, value).skip(2) == with_option(rest, "--db"@, value));
        assert(with_option(args, "--sql"@, value).skip(2) == with_option(rest, "--sql"@, value));
        assert(args.push("--db"@).skip(2) == rest.push("--db"@));
        assert(args.push("--sql"@).skip(2) == rest.push("--sql"@));
        assert(args.push(value).skip(2) == rest.push(value));
        if args[0] == "--db"@ {
            one_more_option_of_call(Some(args[1]), sqls, rest, value, p);
        } else {
            one_more_option_of_call(db, sqls.push(args[1]), rest, value, p);
        }
    }
}

/// One more option of `session` names the database; one without a value, and an
/// argument that is no option, are refused.
pub proof fn one_more_option_of_session(
    db: Option<Seq<char>>,
    args: Seq<Seq<char>>,
    value: Seq<char>,
)
    requires
        session_options(db, args) is Ok,
    ensures
        session_options(db, with_option(args, "--db"@, value)) == Ok::<
            Option<Seq<char>>,
            Seq<char>,
        >(Some(value)),
        session_options(db, args.push("--db"@)) == Err::<Option<Seq<char>>, Seq<char>>(
            "missing value for "@ + "--db"@,
        ),
        value != "--db"@ ==> session_options(db, args.push(value)) == Err::<
            Option<Seq<char>>,
            Seq<char>,
        >("unknown argument "@ + value),
    decreases args.len(),
{
    reveal_with_fuel(session_options, 2);
    if args.len() == 0 {
        assert(with_option(args, "--db"@, value).skip(2) == Seq::<Seq<char>>::empty());
        assert(with_option(args, "--db"@, value)[1] == value);
    } else {
        assert(args.len() >= 2);
        let rest = args.skip(2);
        assert(with_option(args, "--db"@, value).skip(2) == with_option(rest, "--db"@, value));
        assert(args.push("--db"@).skip(2) == rest.push("--db"@));
        assert(args.push(value).skip(2) == rest.push(value));
        one_more_option_of_session(Some(args[1]), rest, value);
    }
}

/// What must be named is asked for: `serve` wants a storage file and a stub,
/// `call` a database and a statement, `session` a database, `hammer` a database
/// and a number, in this order; with all of it the command has what was said.
pub proof fn what_is_missing_is_asked_for(
    args: Seq<Seq<char>>,
    serve: Result<ServeArgs, String>,
    call: Result<CallArgs, String>,
    session: Result<String, String>,
    hammer: Result<HammerArgs, String>,
    storm: Result<StormArgs, String>,
)
    requires
        is_serve_result(args, serve),
        is_call_result(args, call),
        is_session_result(args, session),
        is_hammer_result(args, hammer),
        is_storm_result(args, storm),
    ensures
        match serve_options(no_serve_options(), args) {
            Ok(o) => {
                &&& o.storage is None ==> (serve matches Err(e) && e@ == "missing --storage"@)
                &&& o.storage is Some && o.stub is None ==> (serve matches Err(e) && e@
                    == "missing --stub"@)
                &&& o.storage is Some && o.stub is Some ==> (serve matches Ok(a) && a.storage@
                    == o.storage->0 && a.stub@ == o.stub->0 && a.listen@ == o.listen && (
                a.advertise is Some <==> o.advertise is Some) && (a.advertise matches Some(addr)
                    ==> addr@ == o.advertise->0))
            },
            Err(why) => serve matches Err(e) && e@ == why,
        },
        match call_options(None, seq![], args) {
            Ok(o) => {
                &&& o.0 is None ==> (call matches Err(e) && e@ == "missing --db"@)
                &&& o.0 is Some && o.1.len() == 0 ==> (call matches Err(e) && e@ == "missing --sql"@)
                &&& o.0 is Some && o.1.len() > 0 ==> (call matches Ok(a) && a.db@ == o.0->0 && texts(
                    a.sqls@,
                ) == o.1)
            },
            Err(why) => call matches Err(e) && e@ == why,
        },
        match session_options(None, args) {
            Ok(None) => session matches Err(e) && e@ == "missing --db"@,
            Ok(Some(db)) => session matches Ok(a) && a@ == db,
            Err(why) => session matches Err(e) && e@ == why,
        },
        match hammer_options(no_hammer_options(), args) {
            Ok(o) => {
                &&& o.db is None ==> (hammer matches Err(e) && e@ == "missing --db"@)
                &&& o.db is Some && o.worker is None ==> (hammer matches Err(e) && e@
                    == "missing --worker"@)
                &&& o.db is Some && o.worker is Some ==> (hammer matches Ok(a) && a.db@ == o.db->0
                    && a.worker == o.worker->0 && a.ops == o.ops && (o.seed matches Some(seed)
                    ==> a.seed == seed))
            },
            Err(why) => hammer matches Err(e) && e@ == why,
        },
        match storm_options(no_storm_options(), args) {
            Ok(o) => storm matches Ok(a) && a.apps == o.apps && a.ops == o.ops && (a.dir is Some
                <==> o.dir is Some) && (a.dir matches Some(dir) ==> dir@ == o.dir->0),
            Err(why) => storm matches Err(e) && e@ == why,
        },
{
}

/// The first argument names the command, and the rest is what the command is
/// told.
pub proof fn the_first_argument_names_the_command(
    args: Seq<Seq<char>>,
    r: Result<Command, String>,
)
    requires
        is_command(args, r),
    ensures
        args.len() == 0 ==> (r matches Err(e) && e@ == "missing command\n"@ + USAGE@),
        args.len() > 0 ==> ({
            let rest = args.drop_first();
            &&& r matches Ok(Command::Serve { args: a }) ==> args[0] == "serve"@
                && is_serve_result(rest, Ok(a))
            &&& r matches Ok(Command::Call { args: a }) ==> args[0] == "call"@ && is_call_result(
                rest,
                Ok(a),
            )
            &&& r matches Ok(Command::Session { db }) ==> args[0] == "session"@
                && is_session_result(rest, Ok(db))
            &&& r matches Ok(Command::Hammer { args: a }) ==> args[0] == "hammer"@
                && is_hammer_result(rest, Ok(a))
            &&& r matches Ok(Command::Storm { args: a }) ==> args[0] == "storm"@
                && is_storm_result(rest, Ok(a))
            &&& r matches Ok(Command::Version) ==> args[0] == "version"@
            &&& r matches Ok(Command::Help) ==> args[0] == "-h"@ || args[0] == "--help"@
            &&& r matches Err(e) ==> {
                ||| args[0] == "serve"@ && is_serve_result(rest, Err(e))
                ||| args[0] == "call"@ && is_call_result(rest, Err(e))
                ||| args[0] == "session"@ && is_session_result(rest, Err(e))
                ||| args[0] == "hammer"@ && is_hammer_result(rest, Err(e))
                ||| args[0] == "storm"@ && is_storm_result(rest, Err(e))
                ||| e@ == "unknown command "@ + args[0] + "\n"@ + USAGE@ && args[0] != "serve"@
                    && args[0] != "call"@ && args[0] != "session"@ && args[0] != "hammer"@ && args[0]
                    != "storm"@ && args[0] != "version"@ && args[0] != "-h"@ && args[0] != "--help"@
            }
        }),
{
}

/// What is not said has its default: the broker listens on any free port of the
/// machine itself, a load process does a thousand operations, and a load test has
/// ten processes.
pub proof fn what_is_not_said_has_its_default()
    ensures
        serve_options(no_serve_options(), seq![]) == Ok::<ServeOptions, Seq<char>>(
            ServeOptions { storage: None, stub: None, listen: "127.0.0.1:0"@, advertise: None },
        ),
        hammer_options(no_hammer_options(), seq![]) == Ok::<HammerOptions, Seq<char>>(
            HammerOptions { db: None, worker: None, ops: 1000, seed: None },
        ),
        storm_options(no_storm_options(), seq![]) == Ok::<StormOptions, Seq<char>>(
            StormOptions { apps: 10, ops: 1000, dir: None },
        ),
{
}

} // verus!
