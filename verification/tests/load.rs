//! The load driver: random numbers, migrations, the work, the audit.
use std::collections::BTreeMap;

use sqlite_broker::audit::{audit, read_events, AuditAction, AuditEvent, AuditReply};
use sqlite_broker::claim::{parse_claim, report, Claim};
use sqlite_broker::cli::{hammer_cli, serve_cli};
use sqlite_broker::hammer::{run_worker, Load};
use sqlite_broker::load::{benign_migration, Boot, DbAction, DbEvent, MIGRATION_TABLE};
use sqlite_broker::rng::Rng;
use sqlite_broker::storm::{
    enough_apps, hung_text, storm, storm_dir, wait_child, worker_file, StormAction, StormEvent,
    WaitStep,
};

fn claim() -> Claim {
    Claim {
        worker: 3,
        ops: 10,
        reads: 4,
        writes: 6,
        inserts: 3,
        updates: 2,
        deletes: 1,
        sum_seq: 27,
        sample: "w3-s1".to_string(),
        last: "w3-s9".to_string(),
    }
}

#[test]
fn random_numbers_depend_on_the_seed_alone() {
    let mut a = Rng(1);
    assert_eq!(a.next(), 1082269761);
    assert_eq!(a.next(), 1152992998833853505);
    let mut b = Rng(1);
    assert_eq!(b.below(1000), 761);
    let mut zero = Rng(0);
    assert_eq!(zero.next(), 0);
    let mut c = Rng(0xffff_ffff_ffff_ffff);
    for _ in 0..1000 {
        assert_ne!(c.next(), 0);
        assert!(c.below(3) < 3);
    }
}

#[test]
fn reports_are_exact_and_read_back() {
    let line = report(&claim(), 10, 4, 55);
    assert_eq!(
        line,
        "worker=3 ops=10 executed=10 reads=4 writes=6 inserts=3 updates=2 deletes=1 sum_seq=27 sample=w3-s1 last=w3-s9 boot_ddl=4 sql_err=0 fatal=0 ms=55"
    );
    let c = parse_claim(&line).unwrap();
    assert_eq!((c.worker, c.ops, c.reads, c.writes), (3, 10, 4, 6));
    assert_eq!((c.inserts, c.updates, c.deletes, c.sum_seq), (3, 2, 1, 27));
    assert_eq!((c.sample.as_str(), c.last.as_str()), ("w3-s1", "w3-s9"));
}

#[test]
fn claims_must_be_numbers_that_add_up() {
    assert_eq!(
        parse_claim("worker=2 ops=3 reads=1 writes=1").unwrap_err(),
        "worker 2 reads+writes != ops"
    );
    assert_eq!(
        parse_claim("ops=x").unwrap_err(),
        "invalid digit found in string"
    );
    assert_eq!(
        parse_claim("ops=").unwrap_err(),
        "cannot parse integer from empty string"
    );
    assert_eq!(
        parse_claim("ops=18446744073709551616").unwrap_err(),
        "number too large to fit in target type"
    );
    assert!(parse_claim("").is_ok());
    assert!(parse_claim("noise other=1 =2 sample=a=b").is_ok());
    assert_eq!(parse_claim("sample=a=b").unwrap().sample, "a=b");
}

#[test]
fn migrations_that_were_made_before_are_benign() {
    assert!(benign_migration("duplicate column name: seen"));
    assert!(benign_migration("Table ITEM Already Exists"));
    assert!(!benign_migration("disk I/O error"));
}

fn ok() -> DbEvent {
    DbEvent::Executed { error: None }
}

fn err(text: &str) -> DbEvent {
    DbEvent::Executed {
        error: Some(text.to_string()),
    }
}

fn count(n: &str) -> DbEvent {
    DbEvent::Queried {
        result: Ok(vec![vec![n.to_string()]]),
    }
}

fn sql(action: DbAction) -> String {
    match action {
        DbAction::Exec { sql } | DbAction::Query { sql } => sql,
        other => panic!("{other:?}"),
    }
}

#[test]
fn migrations_are_made_and_recorded() {
    let (mut boot, first) = Boot::begin();
    assert_eq!(sql(first), MIGRATION_TABLE);
    assert_eq!(sql(boot.step(ok())), "BEGIN IMMEDIATE");
    assert_eq!(
        sql(boot.step(ok())),
        "SELECT count(*) FROM schema_migration WHERE version = 1"
    );
    assert!(sql(boot.step(count("0"))).starts_with("CREATE TABLE IF NOT EXISTS item ("));
    assert_eq!(
        sql(boot.step(ok())),
        "INSERT OR IGNORE INTO schema_migration(version, name) VALUES (1, 'base tables')"
    );
    assert_eq!(sql(boot.step(ok())), "COMMIT");
    assert_eq!(sql(boot.step(ok())), "BEGIN IMMEDIATE");
    assert_eq!(
        sql(boot.step(ok())),
        "SELECT count(*) FROM schema_migration WHERE version = 2"
    );
    assert_eq!(
        sql(boot.step(count("0"))),
        "ALTER TABLE item ADD COLUMN seen INTEGER NOT NULL DEFAULT 0"
    );
    assert_eq!(
        sql(boot.step(err("duplicate column name: seen"))),
        "INSERT OR IGNORE INTO schema_migration(version, name) VALUES (2, 'add item.seen')"
    );
    assert_eq!(sql(boot.step(ok())), "COMMIT");
    boot.step(ok());
    boot.step(ok());
    assert_eq!(sql(boot.step(count("1"))), "COMMIT");
    assert!(matches!(boot.step(ok()), DbAction::Done));
    assert_eq!(boot.applied(), 3);
}

#[test]
fn a_failed_migration_is_undone() {
    let (mut boot, _) = Boot::begin();
    boot.step(ok());
    boot.step(ok());
    boot.step(count("0"));
    assert_eq!(sql(boot.step(err("disk I/O error"))), "ROLLBACK");
    match boot.step(err("nothing to roll back")) {
        DbAction::Failed { error } => assert_eq!(error, "disk I/O error"),
        other => panic!("{other:?}"),
    }
    let (mut boot, _) = Boot::begin();
    boot.step(ok());
    match boot.step(err("locked")) {
        DbAction::Failed { error } => assert_eq!(error, "locked"),
        other => panic!("{other:?}"),
    }
}

fn booted(worker: u64, ops: u32, seed: u64) -> (Load, DbAction) {
    let (mut load, first) = run_worker(worker, ops, seed);
    assert!(matches!(first, DbAction::Open));
    assert_eq!(
        sql(load.step(DbEvent::Opened { error: None })),
        "PRAGMA foreign_keys = ON"
    );
    load.step(ok());
    let mut action = load.step(ok());
    for _ in 0..3 {
        assert_eq!(sql(action), "BEGIN IMMEDIATE");
        load.step(ok());
        assert_eq!(sql(load.step(count("1"))), "COMMIT");
        action = load.step(ok());
    }
    (load, action)
}

#[test]
fn a_load_process_does_all_of_its_operations() {
    let (mut load, mut action) = booted(2, 450, 77);
    let mut live: Vec<String> = Vec::new();
    let (mut reads, mut writes, mut opens) = (0u64, 0u64, 0u64);
    let mut last = String::new();
    loop {
        action = match action {
            DbAction::Open => {
                opens += 1;
                load.step(DbEvent::Opened { error: None })
            }
            DbAction::Query { sql } => {
                assert!(sql.starts_with("SELECT "));
                reads += 1;
                load.step(DbEvent::Queried {
                    result: Ok(Vec::new()),
                })
            }
            DbAction::Exec { sql } => {
                if sql != "PRAGMA foreign_keys = ON" {
                    let step = reads + writes;
                    let fresh = format!("w2-s{step}");
                    if sql.contains("'insert'") {
                        assert_eq!(
                            sql,
                            format!("BEGIN IMMEDIATE; INSERT INTO item(worker, n, name, note, price, flag, seen) VALUES (2, {step}, '{fresh}', 'row {step}', {step}.25, {flag}, 0); INSERT INTO event(worker, seq, kind, token) VALUES (2, {step}, 'insert', '{fresh}'); COMMIT", flag = step % 2)
                        );
                        last = fresh.clone();
                        live.push(fresh);
                    } else if sql.contains("'update'") {
                        let name = live
                            .iter()
                            .find(|n| sql.contains(&format!("WHERE name = '{n}'")))
                            .unwrap()
                            .clone();
                        assert_eq!(
                            sql,
                            format!("BEGIN IMMEDIATE; UPDATE item SET note = 'edited {step}', seen = seen + 1, price = COALESCE(price, 0) + 0.5 WHERE name = '{name}'; INSERT INTO event(worker, seq, kind, token) VALUES (2, {step}, 'update', '{name}'); COMMIT")
                        );
                        last = name;
                    } else {
                        let name = live.pop().unwrap();
                        assert_eq!(
                            sql,
                            format!("BEGIN IMMEDIATE; DELETE FROM item WHERE name = '{name}'; INSERT INTO event(worker, seq, kind, token) VALUES (2, {step}, 'delete', '{name}'); COMMIT")
                        );
                        last = name;
                    }
                    writes += 1;
                }
                load.step(ok())
            }
            DbAction::Done => break,
            other => panic!("{other:?}"),
        };
    }
    assert_eq!((opens, reads + writes), (2, 450));
    assert!(reads > 0 && writes > 0);
    assert!(load.is_through());
    let c = parse_claim(&load.report(9)).unwrap();
    assert_eq!((c.worker, c.ops, c.reads, c.writes), (2, 450, reads, writes));
    assert_eq!(c.last, last);
    assert!(c.sample.starts_with("w2-s"));
}

#[test]
fn a_load_process_stops_at_a_failure() {
    let (mut load, action) = booted(0, 5, 1);
    let event = match action {
        DbAction::Exec { .. } => err("no such table"),
        _ => DbEvent::Queried {
            result: Err("no such table".to_string()),
        },
    };
    match load.step(event) {
        DbAction::Failed { error } => assert_eq!(error, "no such table"),
        other => panic!("{other:?}"),
    }
    assert!(!load.is_through());
}

#[test]
fn a_load_process_without_writes_has_failed() {
    let (load, action) = booted(4, 0, 1);
    match action {
        DbAction::Failed { error } => assert_eq!(error, "worker 4 performed no writes"),
        other => panic!("{other:?}"),
    }
    assert!(load.is_through());
}

#[test]
fn events_are_read() {
    let mut want = BTreeMap::new();
    want.insert(0u64, (5u64, 12u64));
    want.insert(2, (1, 0));
    assert_eq!(read_events("0|5|12\n2|1|0\n").unwrap(), want);
    assert_eq!(read_events("").unwrap(), BTreeMap::new());
    assert_eq!(
        read_events("0|x|1").unwrap_err(),
        "event row 0|x|1: invalid digit found in string"
    );
    assert_eq!(
        read_events("7").unwrap_err(),
        "event row 7: cannot parse integer from empty string"
    );
}

fn file(bytes: &[u8]) -> AuditEvent {
    AuditEvent::File {
        result: Ok(bytes.to_vec()),
    }
}

fn says(text: &str) -> AuditEvent {
    AuditEvent::Answer {
        result: Ok(text.to_string()),
    }
}

fn asked(reply: AuditReply) -> String {
    match reply.action {
        AuditAction::Ask { sql } => sql,
        other => panic!("{other:?}"),
    }
}

fn why(reply: AuditReply) -> String {
    match reply.action {
        AuditAction::Failed { error } => error,
        other => panic!("{other:?}"),
    }
}

#[test]
fn an_audit_asks_for_everything() {
    let (mut a, first) = audit(vec![claim()]);
    assert!(matches!(first.action, AuditAction::ReadStorage));
    assert!(matches!(
        a.step(file(b"SQLite format 3\0...")).action,
        AuditAction::ReadStub
    ));
    assert_eq!(
        asked(a.step(file(b"SQLITEBROKER1\nhost:1\n"))),
        "PRAGMA integrity_check;"
    );
    let r = a.step(says("ok\n"));
    assert_eq!(r.said, vec!["--- /usr/bin/sqlite3 ---", "integrity=ok"]);
    let r = a.step(says("1:base tables\n"));
    assert_eq!(r.said, vec!["migrations:\n1:base tables"]);
    assert!(a.step(says("1\n")).said.is_empty());
    let r = a.step(says("3|6|27\n"));
    assert_eq!(r.said, vec!["events:\n3|6|27"]);
    assert_eq!(
        asked(r),
        "SELECT count(*) FROM event WHERE worker = 3 AND token = 'w3-s1'"
    );
    assert_eq!(
        asked(a.step(says("1\n"))),
        "SELECT count(*) FROM event WHERE worker = 3 AND token = 'w3-s9'"
    );
    assert_eq!(
        asked(a.step(says("1\n"))),
        "SELECT (SELECT count(*) FROM event WHERE worker = 3 AND kind = 'insert') - (SELECT count(*) FROM event WHERE worker = 3 AND kind = 'delete'), (SELECT count(*) FROM item WHERE worker = 3)"
    );
    let r = a.step(says("2|2\n"));
    assert_eq!(
        r.said,
        vec!["audit worker=3 writes=6 sum_seq=27 items=2 match"]
    );
    assert!(matches!(r.action, AuditAction::Passed));
}

fn audited(answers: &[&str]) -> AuditReply {
    let (mut a, _) = audit(vec![claim()]);
    a.step(file(b"SQLite format 3\0"));
    let mut reply = a.step(file(b"SQLITEBROKER1\n"));
    for answer in answers {
        reply = a.step(says(answer));
    }
    reply
}

#[test]
fn an_audit_fails_where_the_file_differs() {
    let (mut a, _) = audit(Vec::new());
    assert_eq!(why(a.step(file(b"text"))), "storage is not a SQLite file");
    let (mut a, _) = audit(Vec::new());
    a.step(file(b"SQLite format 3\0"));
    assert_eq!(
        why(a.step(file(b"SQLITEBROKER1"))),
        "replacement path is no longer a stub"
    );
    assert_eq!(
        why(audited(&["row missing"])),
        "integrity check failed: row missing"
    );
    assert_eq!(
        why(audited(&["ok", "", "0\n"])),
        "ALTER column seen missing in the file: 0\n"
    );
    assert_eq!(
        why(audited(&["ok", "", "1", "1|6|27"])),
        "worker 3 reported 6 writes but the file has none"
    );
    assert_eq!(
        why(audited(&["ok", "", "1", "3|5|27"])),
        "worker 3 file has 5 writes sum 27, process reported 6 writes sum 27"
    );
    assert_eq!(
        why(audited(&["ok", "", "1", "3|6|27", "0\n"])),
        "worker 3 token w3-s1 is missing from the file"
    );
    assert_eq!(
        why(audited(&["ok", "", "1", "3|6|27", "1", "0"])),
        "worker 3 token w3-s9 is missing from the file"
    );
    assert_eq!(
        why(audited(&["ok", "", "1", "3|6|27", "1", "1", "2|3"])),
        "worker 3 item rows 3 but inserts-deletes is 2"
    );
    let (mut a, _) = audit(Vec::new());
    assert_eq!(
        why(a.step(AuditEvent::File {
            result: Err("gone".to_string())
        })),
        "gone"
    );
}

fn summary(worker: u64) -> String {
    let mut c = claim();
    c.worker = worker;
    report(&c, 10, 4, 1)
}

#[test]
fn a_load_test_runs_to_its_end() {
    let (mut s, first) = storm(2, 10, "storage.sqlite", "db.sqlite");
    match first.action {
        StormAction::StartServer { args } => assert_eq!(
            args,
            vec!["serve", "--storage", "storage.sqlite", "--stub", "db.sqlite"]
        ),
        other => panic!("{other:?}"),
    }
    assert!(matches!(
        s.step(StormEvent::ServerStarted { error: None }).action,
        StormAction::ReadLine
    ));
    match s
        .step(StormEvent::FirstLine {
            line: Some("ready listen=x".to_string()),
            shown: String::new(),
        })
        .action
    {
        StormAction::StartWorker { worker, args } => {
            assert_eq!(worker, 0);
            assert_eq!(
                args,
                vec![
                    "hammer",
                    "--db",
                    "db.sqlite",
                    "--worker",
                    "0",
                    "--ops",
                    "10",
                    "--seed",
                    "2654435769"
                ]
            );
        }
        other => panic!("{other:?}"),
    }
    match s.step(StormEvent::WorkerStarted { error: None }).action {
        StormAction::StartWorker { worker, args } => {
            assert_eq!(worker, 1);
            assert_eq!(args[8], "2654439865");
        }
        other => panic!("{other:?}"),
    }
    assert!(matches!(
        s.step(StormEvent::WorkerStarted { error: None }).action,
        StormAction::AwaitWorker { worker: 0 }
    ));
    for worker in 0..2u64 {
        let r = s.step(StormEvent::WorkerEnded {
            success: true,
            status: "exit status: 0".to_string(),
            summary: format!("{}\n", summary(worker)),
            complaint: String::new(),
        });
        assert_eq!(r.said, vec![summary(worker)]);
        if worker == 1 {
            match r.action {
                StormAction::Audit { claims } => assert_eq!(claims.len(), 2),
                other => panic!("{other:?}"),
            }
        }
    }
    assert!(matches!(
        s.step(StormEvent::Audited { error: None }).action,
        StormAction::StopServer
    ));
    let r = s.step(StormEvent::Stopped {
        elapsed_ms: 12,
        bytes: 4096,
        dir: "/tmp/x".to_string(),
    });
    assert_eq!(
        r.said,
        vec![
            "apps=2 ops_each=10 elapsed_ms=12 file_bytes=4096 dir=/tmp/x",
            "storm_ok file_matches_writes"
        ]
    );
    assert!(matches!(r.action, StormAction::Passed));
}

#[test]
fn a_load_test_speaks_the_command_line() {
    let (mut s, first) = storm(2, 25, "st", "db");
    match first.action {
        StormAction::StartServer { args } => {
            let a = serve_cli(&args[1..].to_vec()).unwrap();
            assert_eq!((a.storage.as_str(), a.stub.as_str()), ("st", "db"));
        }
        other => panic!("{other:?}"),
    }
    s.step(StormEvent::ServerStarted { error: None });
    match s
        .step(StormEvent::FirstLine {
            line: Some("ready x".to_string()),
            shown: String::new(),
        })
        .action
    {
        StormAction::StartWorker { args, .. } => {
            let a = hammer_cli(&args[1..].to_vec()).unwrap();
            assert_eq!((a.db.as_str(), a.worker, a.ops), ("db", 0, 25));
            assert_eq!(a.seed, 0x9E37_79B9);
        }
        other => panic!("{other:?}"),
    }
}

#[test]
fn a_load_test_reports_what_went_wrong() {
    assert_eq!(
        enough_apps(1).unwrap_err(),
        "storm wants at least 2 apps"
    );
    assert!(enough_apps(2).is_ok());
    let (mut s, _) = storm(2, 10, "a", "b");
    match s
        .step(StormEvent::ServerStarted {
            error: Some("no".to_string()),
        })
        .action
    {
        StormAction::Failed { error } => assert_eq!(error, "spawn serve: no"),
        other => panic!("{other:?}"),
    }
    let (mut s, _) = storm(2, 10, "a", "b");
    s.step(StormEvent::ServerStarted { error: None });
    assert!(matches!(
        s.step(StormEvent::FirstLine {
            line: None,
            shown: "None".to_string()
        })
        .action,
        StormAction::Kill
    ));
    match s.step(StormEvent::Killed).action {
        StormAction::Failed { error } => {
            assert_eq!(error, "server did not become ready: None")
        }
        other => panic!("{other:?}"),
    }
    let (mut s, _) = storm(2, 10, "a", "b");
    s.step(StormEvent::ServerStarted { error: None });
    s.step(StormEvent::FirstLine {
        line: Some("ready x".to_string()),
        shown: String::new(),
    });
    s.step(StormEvent::WorkerStarted { error: None });
    s.step(StormEvent::WorkerStarted { error: None });
    for n in 0..2 {
        s.step(StormEvent::WorkerEnded {
            success: false,
            status: "exit status: 1".to_string(),
            summary: String::new(),
            complaint: format!(" broke {n}\n"),
        });
    }
    s.step(StormEvent::Audited { error: None });
    match s
        .step(StormEvent::Stopped {
            elapsed_ms: 0,
            bytes: 0,
            dir: String::new(),
        })
        .action
    {
        StormAction::Failed { error } => assert_eq!(
            error,
            "worker 0 exit status: 1: broke 0\nworker 1 exit status: 1: broke 1"
        ),
        other => panic!("{other:?}"),
    }
}

#[test]
fn the_audit_counts_before_the_processes() {
    let (mut s, _) = storm(2, 10, "a", "b");
    s.step(StormEvent::ServerStarted { error: None });
    s.step(StormEvent::FirstLine {
        line: Some("ready x".to_string()),
        shown: String::new(),
    });
    s.step(StormEvent::WorkerStarted { error: None });
    s.step(StormEvent::WorkerStarted { error: None });
    for _ in 0..2 {
        s.step(StormEvent::WorkerEnded {
            success: false,
            status: String::new(),
            summary: String::new(),
            complaint: String::new(),
        });
    }
    s.step(StormEvent::Audited {
        error: Some("differs".to_string()),
    });
    match s
        .step(StormEvent::Stopped {
            elapsed_ms: 0,
            bytes: 0,
            dir: String::new(),
        })
        .action
    {
        StormAction::Failed { error } => assert_eq!(error, "differs"),
        other => panic!("{other:?}"),
    }
}

#[test]
fn a_load_test_wants_two_processes() {
    for apps in [0, 1] {
        let (mut s, first) = storm(apps, 10, "a", "b");
        assert!(first.said.is_empty());
        match first.action {
            StormAction::Failed { error } => assert_eq!(error, "storm wants at least 2 apps"),
            other => panic!("{other:?}"),
        }
        assert!(matches!(
            s.step(StormEvent::ServerStarted { error: None }).action,
            StormAction::Unexpected
        ));
    }
    assert!(matches!(
        storm(2, 10, "a", "b").1.action,
        StormAction::StartServer { .. }
    ));
}

#[test]
fn processes_are_waited_for() {
    assert_eq!(wait_child(true, 999_999), WaitStep::Ended);
    assert_eq!(wait_child(false, 180_000), WaitStep::Pause);
    assert_eq!(wait_child(false, 180_001), WaitStep::Hung);
    assert_eq!(hung_text(12), "worker pid 12 hung");
    assert_eq!(storm_dir(5, 77), "sqlite-broker-storm-5-77");
    assert_eq!(
        storm_dir(5, u128::MAX),
        "sqlite-broker-storm-5-340282366920938463463374607431768211455"
    );
    assert_eq!(worker_file(3, ".log"), "worker-3.log");
}
