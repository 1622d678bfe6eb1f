//! The broker: its sessions, its log, its conversations.
use sqlite_broker::broker::{
    can_brief, event_text, published_address, ready_line, sql_brief, ClientAction, ClientEvent,
    ClientLoop, OpenStep, OpenTries, OPEN_TRIES,
};
use sqlite_broker::protocol::{error_response, ok_closed, Hello, Request, Response};
use sqlite_broker::stub::format_stub;
use sqlite_broker::worker::{reply_response, Effect, Job, LogEvent, Reply, Work, Worker};

fn answer(autocommit: bool) -> Response {
    let mut r = ok_closed();
    r.autocommit = autocommit;
    r
}

fn open(worker: &mut Worker, id: u64) {
    let effects = worker.handle(Job::Opened {
        id,
        ticket: 1000 + id,
        failure: None,
    });
    assert!(matches!(
        effects.as_slice(),
        [Effect::Reply {
            reply: Reply::Opened { failure: None },
            ..
        }]
    ));
}

fn ask(worker: &mut Worker, id: u64, ticket: u64, sql: &str) -> Vec<Effect> {
    worker.handle(Job::Req {
        id,
        ticket,
        req: Request::Exec {
            sql: sql.to_string(),
            params: Vec::new(),
        },
    })
}

fn runs(effects: &[Effect]) -> Vec<(u64, u64)> {
    effects
        .iter()
        .filter_map(|e| match e {
            Effect::Run { statement } => Some((statement.id, statement.ticket)),
            _ => None,
        })
        .collect()
}

fn lines(effects: &[Effect]) -> Vec<String> {
    effects
        .iter()
        .filter_map(|e| match e {
            Effect::Log { event } => Some(event_text(event)),
            _ => None,
        })
        .collect()
}

#[test]
fn others_wait_behind_a_transaction_and_run_in_order() {
    let mut w = Worker::new();
    open(&mut w, 1);
    open(&mut w, 2);
    open(&mut w, 3);
    assert_eq!(runs(&ask(&mut w, 1, 10, "BEGIN")), vec![(1, 10)]);
    let begun = w.finished(answer(false));
    assert_eq!(
        lines(&begun),
        vec!["sqlite_broker_event=exec session=1 autocommit=0 sql=BEGIN"]
    );
    assert_eq!(w.holder(), Some(1));

    let left = ask(&mut w, 2, 20, "INSERT 2");
    assert!(runs(&left).is_empty());
    assert_eq!(lines(&left), vec!["sqlite_broker_event=queued session=2"]);
    let right = ask(&mut w, 3, 30, "INSERT 3");
    assert!(runs(&right).is_empty());
    assert_eq!(w.waiting(), 2);

    assert_eq!(runs(&ask(&mut w, 1, 11, "INSERT 1")), vec![(1, 11)]);
    assert!(runs(&w.finished(answer(false))).is_empty());
    assert_eq!(runs(&ask(&mut w, 1, 12, "COMMIT")), vec![(1, 12)]);
    let committed = w.finished(answer(true));
    assert!(lines(&committed).contains(&"sqlite_broker_event=release session=1".to_string()));
    assert_eq!(runs(&committed), vec![(2, 20)]);
    assert_eq!(runs(&w.finished(answer(true))), vec![(3, 30)]);
    assert!(runs(&w.finished(answer(true))).is_empty());
    assert_eq!(w.waiting(), 0);
    assert!(w.is_idle());
}

#[test]
fn a_lost_client_lets_the_others_go_on() {
    let mut w = Worker::new();
    open(&mut w, 1);
    open(&mut w, 2);
    ask(&mut w, 1, 10, "BEGIN");
    w.finished(answer(false));
    assert!(runs(&ask(&mut w, 2, 20, "SELECT 1")).is_empty());
    let effects = w.handle(Job::Drop { id: 1, ticket: 11 });
    assert!(effects
        .iter()
        .any(|e| matches!(e, Effect::CloseConnection { id: 1 })));
    assert_eq!(runs(&effects), vec![(2, 20)]);
    assert_eq!(w.holder(), None);
}

#[test]
fn waiting_requests_of_a_closed_session_are_answered() {
    let mut w = Worker::new();
    open(&mut w, 1);
    open(&mut w, 2);
    ask(&mut w, 1, 10, "BEGIN");
    w.finished(answer(false));
    ask(&mut w, 2, 20, "SELECT 1");
    let effects = w.handle(Job::Req {
        id: 2,
        ticket: 21,
        req: Request::Close,
    });
    let replies: Vec<u64> = effects
        .iter()
        .filter_map(|e| match e {
            Effect::Reply { ticket, .. } => Some(*ticket),
            _ => None,
        })
        .collect();
    assert!(replies.contains(&20));
    assert!(replies.contains(&21));
    assert_eq!(w.waiting(), 0);
}

#[test]
fn compiling_waits_too_but_is_not_logged() {
    let mut w = Worker::new();
    open(&mut w, 1);
    open(&mut w, 2);
    ask(&mut w, 1, 10, "BEGIN");
    w.finished(answer(false));
    let effects = w.handle(Job::Req {
        id: 2,
        ticket: 20,
        req: Request::Prepare {
            sql: "SELECT 1".to_string(),
        },
    });
    assert!(runs(&effects).is_empty());
    assert_eq!(w.waiting(), 1);
    let own = w.handle(Job::Req {
        id: 1,
        ticket: 11,
        req: Request::Prepare {
            sql: "SELECT 2".to_string(),
        },
    });
    assert!(own.iter().any(|e| matches!(
        e,
        Effect::Run { statement } if matches!(statement.work, Work::Prepare { .. })
    )));
    assert!(lines(&w.finished(answer(false))).is_empty());
}

#[test]
fn unknown_sessions_are_told_so() {
    let mut w = Worker::new();
    let effects = ask(&mut w, 7, 70, "SELECT 1");
    assert!(matches!(
        effects.as_slice(),
        [
            Effect::Log { .. },
            Effect::Reply {
                ticket: 70,
                reply: Reply::NoSession
            }
        ]
    ));
    assert_eq!(
        lines(&effects),
        vec!["sqlite_broker_event=exec session=7 autocommit=1 sql=SELECT 1"]
    );
    let r = reply_response(Reply::NoSession).unwrap();
    assert!(!r.ok);
    assert_eq!(r.message, "no session");
    let r = reply_response(Reply::SessionClosed).unwrap();
    assert_eq!((r.code, r.message.as_str()), (1, "session closed"));
    let r = reply_response(Reply::Closed).unwrap();
    assert!(r.ok);
    assert!(reply_response(Reply::Dropped).is_none());
}

#[test]
fn a_session_that_could_not_be_opened_is_not_known() {
    let mut w = Worker::new();
    w.handle(Job::Opened {
        id: 1,
        ticket: 1,
        failure: Some("no".to_string()),
    });
    let effects = ask(&mut w, 1, 10, "SELECT 1");
    assert!(runs(&effects).is_empty());
    assert!(effects.iter().any(|e| matches!(
        e,
        Effect::Reply {
            ticket: 10,
            reply: Reply::NoSession
        }
    )));
}

#[test]
fn log_lines_are_short_and_on_one_line() {
    assert_eq!(sql_brief("SELECT\n  1,\t2 "), "SELECT 1, 2");
    let long = "x".repeat(130);
    assert!(can_brief(&long));
    assert_eq!(sql_brief(&long), format!("{}...", "x".repeat(120)));
    assert_eq!(sql_brief(&"x".repeat(120)), "x".repeat(120));
    let odd = format!("{}\u{e9}", "x".repeat(119));
    assert!(!can_brief(&odd));
    assert_eq!(
        event_text(&LogEvent::Exec {
            id: 4,
            autocommit: true,
            sql: "SELECT  1".to_string()
        }),
        "sqlite_broker_event=exec session=4 autocommit=1 sql=SELECT 1"
    );
    assert_eq!(
        event_text(&LogEvent::Release { id: 9 }),
        "sqlite_broker_event=release session=9"
    );
}

#[test]
fn a_busy_file_is_tried_again() {
    let mut tries = OpenTries::new();
    for _ in 1..OPEN_TRIES {
        assert!(matches!(
            tries.failed("database is locked".to_string()),
            OpenStep::Retry
        ));
    }
    assert!(matches!(
        tries.failed("database is locked".to_string()),
        OpenStep::Fail { .. }
    ));
    let mut other = OpenTries::new();
    match other.failed("disk I/O error".to_string()) {
        OpenStep::Fail { message } => assert_eq!(message, "disk I/O error"),
        OpenStep::Retry => panic!("tried again"),
    }
}

#[test]
fn advertised_address_is_published() {
    let addr = published_address("0.0.0.0:7432".to_string(), Some("broker:7432".to_string()));
    assert_eq!(format_stub(&addr), "SQLITEBROKER1\nbroker:7432\n");
    let addr = published_address("127.0.0.1:5".to_string(), None);
    assert_eq!(
        ready_line(&addr, "db.sqlite", "app.sqlite"),
        "ready listen=127.0.0.1:5 stub=db.sqlite storage=app.sqlite"
    );
}

#[test]
fn conversation_ends_with_close() {
    let mut c = ClientLoop::new(5);
    match c.step(ClientEvent::Opened {
        outcome: Some(Ok(())),
    }) {
        ClientAction::Greet { hello } => {
            let Hello { ok, session, error } = hello;
            assert!(ok);
            assert_eq!(session, 5);
            assert!(error.is_none());
        }
        other => panic!("{other:?}"),
    }
    assert!(matches!(
        c.step(ClientEvent::Sent { ok: true }),
        ClientAction::Read
    ));
    assert!(matches!(
        c.step(ClientEvent::Came {
            request: Some(Request::Close)
        }),
        ClientAction::Submit {
            request: Request::Close
        }
    ));
    assert!(matches!(
        c.step(ClientEvent::Answered {
            response: Some(ok_closed())
        }),
        ClientAction::Answer { .. }
    ));
    assert!(matches!(
        c.step(ClientEvent::Sent { ok: false }),
        ClientAction::Stop
    ));
}

#[test]
fn a_client_that_goes_leaves_no_session() {
    let mut c = ClientLoop::new(1);
    c.step(ClientEvent::Opened {
        outcome: Some(Ok(())),
    });
    assert!(matches!(
        c.step(ClientEvent::Sent { ok: false }),
        ClientAction::DropSession
    ));
    let mut c = ClientLoop::new(2);
    c.step(ClientEvent::Opened {
        outcome: Some(Ok(())),
    });
    c.step(ClientEvent::Sent { ok: true });
    assert!(matches!(
        c.step(ClientEvent::Came { request: None }),
        ClientAction::DropSession
    ));
    let mut c = ClientLoop::new(3);
    match c.step(ClientEvent::Opened {
        outcome: Some(Err("full".to_string())),
    }) {
        ClientAction::Refuse { hello } => assert_eq!(hello.error.as_deref(), Some("full")),
        other => panic!("{other:?}"),
    }
}

#[test]
fn failures_are_answered_without_rows() {
    let r = error_response(false, 19, "constraint failed");
    assert!(!r.ok);
    assert!(!r.autocommit);
    assert_eq!((r.code, r.changes, r.rows.len()), (19, 0, 0));
    assert_eq!(r.message, "constraint failed");
}
