//! The command line and the programs behind it.
use sqlite_broker::cli::{
    call_cli, dispatch, hammer_cli, serve_cli, session_cli, storm_cli, Command, USAGE,
};
use sqlite_broker::client::{
    call_error, exec_outcome, is_query, open_error, Query, QueryAction, QueryEvent,
};
use sqlite_broker::load::{DbAction, DbEvent};
use sqlite_broker::number::{i64_text, parse_i64, parse_u32, u64_text};
use sqlite_broker::session::{Call, Session, SessionAction, SessionEvent};

fn words(line: &str) -> Vec<String> {
    line.split(' ')
        .filter(|w| !w.is_empty())
        .map(|w| w.to_string())
        .collect()
}

#[test]
fn the_broker_is_told_its_files() {
    let a = serve_cli(&words("--storage a --stub b")).unwrap();
    assert_eq!((a.storage.as_str(), a.stub.as_str()), ("a", "b"));
    assert_eq!(a.listen, "127.0.0.1:0");
    assert_eq!(a.advertise, None);
    let a = serve_cli(&words(
        "--stub b --listen 0.0.0.0:7432 --advertise broker:7432 --storage a --stub c",
    ))
    .unwrap();
    assert_eq!((a.stub.as_str(), a.listen.as_str()), ("c", "0.0.0.0:7432"));
    assert_eq!(a.advertise.as_deref(), Some("broker:7432"));
    assert_eq!(
        serve_cli(&words("--stub b")).unwrap_err(),
        "missing --storage"
    );
    assert_eq!(
        serve_cli(&words("--storage a")).unwrap_err(),
        "missing --stub"
    );
    assert_eq!(
        serve_cli(&words("--storage")).unwrap_err(),
        "missing value for --storage"
    );
    assert_eq!(
        serve_cli(&words("--bogus")).unwrap_err(),
        "unknown argument --bogus"
    );
}

#[test]
fn calls_take_statements() {
    let mut args = words("--db x --sql");
    args.push("SELECT 1".to_string());
    args.push("--sql".to_string());
    args.push("SELECT 2".to_string());
    let a = call_cli(&args).unwrap();
    assert_eq!(a.db, "x");
    assert_eq!(a.sqls, vec!["SELECT 1", "SELECT 2"]);
    assert_eq!(call_cli(&words("--sql x")).unwrap_err(), "missing --db");
    assert_eq!(call_cli(&words("--db x")).unwrap_err(), "missing --sql");
    assert_eq!(session_cli(&words("--db y")).unwrap(), "y");
    assert_eq!(session_cli(&words("")).unwrap_err(), "missing --db");
    assert_eq!(
        session_cli(&words("--sql y")).unwrap_err(),
        "unknown argument --sql"
    );
}

#[test]
fn load_processes_are_told_their_number() {
    let a = hammer_cli(&words("--db x --worker 3")).unwrap();
    assert_eq!((a.db.as_str(), a.worker, a.ops), ("x", 3, 1000));
    assert_eq!(a.seed, 0xA5A5_5A5Au64 ^ (3 * 0x9E37));
    let a = hammer_cli(&words("--db x --worker 18446744073709551615 --ops 5 --seed 9")).unwrap();
    assert_eq!((a.worker, a.ops, a.seed), (u64::MAX, 5, 9));
    let a = hammer_cli(&words("--db x --worker 18446744073709551615")).unwrap();
    assert_eq!(a.seed, 0xA5A5_5A5Au64 ^ u64::MAX.wrapping_mul(0x9E37));
    assert_eq!(
        hammer_cli(&words("--db x --worker -1")).unwrap_err(),
        "invalid digit found in string"
    );
    assert_eq!(
        hammer_cli(&words("--db x --worker 1 --ops 4294967296")).unwrap_err(),
        "number too large to fit in target type"
    );
    assert_eq!(
        hammer_cli(&words("--worker 1")).unwrap_err(),
        "missing --db"
    );
    assert_eq!(
        hammer_cli(&words("--db x")).unwrap_err(),
        "missing --worker"
    );
    let a = storm_cli(&words("")).unwrap();
    assert_eq!((a.apps, a.ops, a.dir), (10, 1000, None));
    let a = storm_cli(&words("--apps 4 --ops +7 --dir d")).unwrap();
    assert_eq!((a.apps, a.ops, a.dir.as_deref()), (4, 7, Some("d")));
    assert_eq!(
        storm_cli(&words("--apps")).unwrap_err(),
        "missing value for --apps"
    );
}

#[test]
fn commands_are_found() {
    assert!(matches!(
        dispatch(&words("serve --storage a --stub b")),
        Ok(Command::Serve { .. })
    ));
    assert!(matches!(
        dispatch(&words("call --db a --sql b")),
        Ok(Command::Call { .. })
    ));
    assert!(matches!(
        dispatch(&words("session --db a")),
        Ok(Command::Session { db }) if db == "a"
    ));
    assert!(matches!(
        dispatch(&words("hammer --db a --worker 1")),
        Ok(Command::Hammer { .. })
    ));
    assert!(matches!(dispatch(&words("storm")), Ok(Command::Storm { .. })));
    assert!(matches!(dispatch(&words("version")), Ok(Command::Version)));
    assert!(matches!(dispatch(&words("-h")), Ok(Command::Help)));
    assert!(matches!(dispatch(&words("--help")), Ok(Command::Help)));
    assert_eq!(
        dispatch(&words("")).unwrap_err(),
        format!("missing command\n{USAGE}")
    );
    assert_eq!(
        dispatch(&words("nope")).unwrap_err(),
        format!("unknown command nope\n{USAGE}")
    );
    assert_eq!(
        dispatch(&words("storm x")).unwrap_err(),
        "unknown argument x"
    );
}

#[test]
fn queries_are_told_from_scripts() {
    assert!(is_query("select 1"));
    assert!(is_query("  \n WITH x AS (SELECT 1) SELECT 1"));
    assert!(is_query("-- one\n  -- two\nEXPLAIN SELECT 1"));
    assert!(!is_query("-- select"));
    assert!(!is_query("INSERT INTO t SELECT 1"));
    assert!(!is_query(""));
    assert!(!is_query("/* c */ SELECT 1"));
    assert!(is_query("SELECT '\u{e9}\u{e9}\u{e9}\u{e9}\u{e9}'"));
}

#[test]
fn failed_calls_are_described() {
    assert_eq!(
        call_error("sqlite3_step", 19, Some("UNIQUE")),
        "sqlite3_step (19): UNIQUE"
    );
    assert_eq!(
        call_error("sqlite3_step", -1, None),
        "sqlite3_step (-1): sqlite error"
    );
    assert_eq!(open_error(14, None), "sqlite3_open failed (14)");
    assert_eq!(open_error(26, Some("not a database".to_string())), "not a database");
    assert_eq!(exec_outcome(0, None), Ok(()));
    assert_eq!(
        exec_outcome(1, Some("x")).unwrap_err(),
        "sqlite3_exec (1): x"
    );
}

#[test]
fn queries_gather_rows() {
    let mut q = Query::begin();
    assert!(matches!(
        q.step(QueryEvent::Prepared {
            rc: 0,
            message: None
        }),
        QueryAction::Step
    ));
    assert!(matches!(
        q.step(QueryEvent::Stepped {
            rc: 100,
            message: None
        }),
        QueryAction::ReadRow
    ));
    assert!(matches!(
        q.step(QueryEvent::Row {
            values: vec![Some(b"a\xff".to_vec()), None]
        }),
        QueryAction::Step
    ));
    match q.step(QueryEvent::Stepped {
        rc: 101,
        message: None,
    }) {
        QueryAction::Finish { result } => {
            assert_eq!(result.unwrap(), vec![vec!["a\u{fffd}", ""]])
        }
        other => panic!("{other:?}"),
    }
    let mut q = Query::begin();
    match q.step(QueryEvent::Prepared {
        rc: 1,
        message: Some("syntax".to_string()),
    }) {
        QueryAction::Finish { result } => {
            assert_eq!(result.unwrap_err(), "sqlite3_prepare_v2 (1): syntax")
        }
        other => panic!("{other:?}"),
    }
    let mut q = Query::begin();
    q.step(QueryEvent::Prepared {
        rc: 0,
        message: None,
    });
    match q.step(QueryEvent::Stepped {
        rc: 5,
        message: Some("busy".to_string()),
    }) {
        QueryAction::Finish { result } => {
            assert_eq!(result.unwrap_err(), "sqlite3_step (5): busy")
        }
        other => panic!("{other:?}"),
    }
}

#[test]
fn a_call_prints_cells_and_ok() {
    let mut c = Call::begin(vec!["INSERT".to_string(), "SELECT 1".to_string()]);
    let r = c.step(DbEvent::Opened { error: None });
    assert!(matches!(r.action, DbAction::Exec { sql } if sql == "INSERT"));
    let r = c.step(DbEvent::Executed { error: None });
    assert_eq!(r.said, vec!["ok"]);
    assert!(matches!(r.action, DbAction::Query { sql } if sql == "SELECT 1"));
    let r = c.step(DbEvent::Queried {
        result: Ok(vec![
            vec!["a".to_string(), "b".to_string()],
            vec!["c".to_string()],
            Vec::new(),
        ]),
    });
    assert_eq!(r.said, vec!["cell:a,b", "cell:c", "cell:"]);
    assert!(matches!(r.action, DbAction::Done));
    let mut c = Call::begin(vec!["INSERT".to_string()]);
    match c
        .step(DbEvent::Opened {
            error: Some("no".to_string()),
        })
        .action
    {
        DbAction::Failed { error } => assert_eq!(error, "no"),
        other => panic!("{other:?}"),
    }
}

fn line(text: &str) -> SessionEvent {
    SessionEvent::Line {
        line: Some(text.to_string()),
    }
}

#[test]
fn a_session_is_driven_by_lines() {
    let mut s = Session::begin();
    let r = s.step(SessionEvent::Opened);
    assert_eq!(r.said, vec!["READY"]);
    assert!(matches!(s.step(line("")).action, SessionAction::ReadLine));
    let r = s.step(line("HOLD"));
    assert_eq!(r.said, vec!["HOLDING"]);
    assert!(matches!(s.step(line(" GO ")).action, SessionAction::ReadLine));
    let r = s.step(line("EXEC BEGIN"));
    assert_eq!(r.said, vec!["START"]);
    assert!(matches!(r.action, SessionAction::Exec { sql } if sql == "BEGIN"));
    let r = s.step(SessionEvent::Executed { result: Ok((2, -7)) });
    assert_eq!(r.said, vec!["OK changes=2 rowid=-7"]);
    let r = s.step(line("QUERY SELECT 1"));
    assert!(matches!(r.action, SessionAction::Query { sql } if sql == "SELECT 1"));
    let r = s.step(SessionEvent::Queried {
        result: Ok(vec![vec!["a".to_string(), "b".to_string()]]),
    });
    assert_eq!(r.said, vec!["ROW a\tb", "END"]);
    assert!(matches!(
        s.step(SessionEvent::Line { line: None }).action,
        SessionAction::End
    ));
}

#[test]
fn a_session_fails_on_bad_commands() {
    let mut s = Session::begin();
    s.step(SessionEvent::Opened);
    match s.step(line("EXEC")).action {
        SessionAction::Failed { error } => assert_eq!(error, "bad command EXEC"),
        other => panic!("{other:?}"),
    }
    let mut s = Session::begin();
    s.step(SessionEvent::Opened);
    s.step(line("HOLD"));
    match s.step(line("STOP")).action {
        SessionAction::Failed { error } => assert_eq!(error, "expected GO, got STOP"),
        other => panic!("{other:?}"),
    }
    let mut s = Session::begin();
    s.step(SessionEvent::Opened);
    s.step(line("HOLD"));
    match s.step(SessionEvent::Line { line: None }).action {
        SessionAction::Failed { error } => assert_eq!(error, "stdin closed while holding"),
        other => panic!("{other:?}"),
    }
    let mut s = Session::begin();
    s.step(SessionEvent::Opened);
    s.step(line("QUERY x"));
    let r = s.step(SessionEvent::Queried {
        result: Err("no such table".to_string()),
    });
    assert_eq!(r.said, vec!["ERR no such table"]);
    assert!(matches!(r.action, SessionAction::Exit));
}

#[test]
fn numbers_are_written_and_read() {
    assert_eq!(u64_text(0), "0");
    assert_eq!(u64_text(u64::MAX), "18446744073709551615");
    assert_eq!(i64_text(i64::MIN), "-9223372036854775808");
    assert_eq!(parse_i64("-9223372036854775808"), Some(i64::MIN));
    assert_eq!(parse_i64("9223372036854775808"), None);
    assert_eq!(parse_i64("+5"), Some(5));
    assert_eq!(parse_i64("-"), None);
    assert_eq!(parse_i64(" 5"), None);
    assert_eq!(parse_u32("4294967295").ok(), Some(u32::MAX));
}
