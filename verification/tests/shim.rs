//! Proxied connections and statements.
use sqlite_broker::api::{
    accept_setting, column_source, refuse, release_destructor, sqlite3_backup_init, sqlite3_bind_blob,
    sqlite3_bind_double, sqlite3_bind_int, sqlite3_bind_int64, sqlite3_bind_null,
    sqlite3_bind_parameter_count, sqlite3_bind_parameter_index, sqlite3_bind_parameter_name,
    sqlite3_bind_text, sqlite3_bind_zeroblob, sqlite3_changes, sqlite3_clear_bindings,
    sqlite3_column_blob, sqlite3_column_bytes, sqlite3_column_count, sqlite3_column_decltype,
    sqlite3_column_double, sqlite3_column_int, sqlite3_column_int64, sqlite3_column_name,
    sqlite3_column_text, sqlite3_column_type, sqlite3_data_count, sqlite3_db_config, sqlite3_db_filename,
    sqlite3_db_handle, sqlite3_db_readonly, sqlite3_errcode, sqlite3_errmsg, sqlite3_expanded_sql,
    sqlite3_get_autocommit, sqlite3_last_insert_rowid, sqlite3_limit, sqlite3_next_stmt,
    sqlite3_reset, sqlite3_serialize, sqlite3_sql, sqlite3_stmt_busy, sqlite3_stmt_readonly, sqlite3_total_changes,
    Bound, Unsupported,
};
use sqlite_broker::base64::encode_base64;
use sqlite_broker::calls::{
    exec_sql, prepare_v2, sqlite3_exec, sqlite3_prepare_v2, sqlite3_step, step_stmt, Errmsg,
    ExecCall, ExecRun, ExecStep, PrepareCall, StepCall,
};
use sqlite_broker::ctext::{cstring_lossy, sql_from, CText};
use sqlite_broker::protocol::{ok_closed, Cell, Real, Response};
use sqlite_broker::proxy::{
    session_refusal, stub_addr, stub_path, SQLITE_ABORT, SQLITE_BUSY, SQLITE_CANTOPEN, SQLITE_ERROR,
    SQLITE_MISUSE, SQLITE_TOOBIG,
};
use sqlite_broker::runner::{SQLITE_DONE, SQLITE_OK, SQLITE_ROW};
use sqlite_broker::shim::{
    open_outcome, open_path, sqlite3_close, sqlite3_close_v2, sqlite3_finalize, sqlite3_open_v2,
    Closed, Routed, Shim,
};
use sqlite_broker::statement::{keyword, limit_value, reads_only, ColumnBytes, Double};

fn text(t: &CText) -> String {
    let bytes = t.with_end();
    assert_eq!(bytes[bytes.len() - 1], 0);
    String::from_utf8(bytes[..bytes.len() - 1].to_vec()).unwrap()
}

fn shown(r: Routed<Option<&CText>>) -> Option<String> {
    match r {
        Routed::Proxied { v } => v.map(text),
        Routed::Forward => panic!("forwarded"),
    }
}

fn here<T>(r: Routed<T>) -> T {
    match r {
        Routed::Proxied { v } => v,
        Routed::Forward => panic!("forwarded"),
    }
}

fn is_forward<T>(r: &Routed<T>) -> bool {
    matches!(r, Routed::Forward)
}

fn opened() -> Shim {
    let mut shim = Shim::new();
    assert_eq!(sqlite3_open_v2(&mut shim, 1, "db.sqlite"), SQLITE_OK);
    shim
}

fn meta(tail: usize) -> Response {
    let mut r = ok_closed();
    r.tail = tail;
    r.columns = vec!["name".to_string(), "score".to_string()];
    r.decltypes = vec!["TEXT".to_string(), String::new()];
    r.param_names = vec![":a".to_string(), String::new(), "@b".to_string()];
    r.param_count = 3;
    r
}

fn prepared(shim: &mut Shim, stmt: u64, sql: &str) {
    match sqlite3_prepare_v2(shim, true, 1, Some(sql.as_bytes()), -1) {
        PrepareCall::Call { sql: text, tail } => {
            assert_eq!(text, sql);
            assert_eq!(tail, Some(sql.len()));
        }
        other => panic!("{other:?}"),
    }
    let done = prepare_v2(shim, 1, sql.to_string(), Ok(meta(sql.len())), stmt);
    assert_eq!((done.rc, done.tail, done.created), (SQLITE_OK, Some(sql.len()), true));
}

fn rows() -> Response {
    let mut r = ok_closed();
    r.columns = vec!["name".to_string(), "score".to_string()];
    r.rows = vec![
        vec![
            Cell::Text {
                v: "12".to_string(),
            },
            Cell::Real {
                v: Real {
                    bits: 2.5f64.to_bits(),
                    text: "2.5".to_string(),
                    truncated: 2,
                },
            },
        ],
        vec![
            Cell::Blob {
                v: encode_base64(b"\x00\xff"),
            },
            Cell::Null,
        ],
        vec![Cell::Int { v: 4294967301 }, Cell::Blob { v: String::new() }],
    ];
    r.changes = 1;
    r.total_changes = 5;
    r.last_insert_rowid = 9;
    r.autocommit = false;
    r
}

#[test]
fn a_new_connection_reports_no_error() {
    let shim = opened();
    assert_eq!(here(sqlite3_errcode(&shim, 1)), 0);
    assert_eq!(shown(sqlite3_errmsg(&shim, 1)).as_deref(), Some("not an error"));
    assert_eq!(here(sqlite3_get_autocommit(&shim, 1)), 1);
    assert_eq!(here(sqlite3_changes(&shim, 1)), 0);
    assert_eq!(
        shown(sqlite3_db_filename(&shim, 1, None)).as_deref(),
        Some("db.sqlite")
    );
    assert_eq!(
        shown(sqlite3_db_filename(&shim, 1, Some(b"main"))).as_deref(),
        Some("db.sqlite")
    );
    assert_eq!(shown(sqlite3_db_filename(&shim, 1, Some(b"temp"))), None);
    assert!(is_forward(&sqlite3_errcode(&shim, 2)));
}

#[test]
fn only_files_can_be_stubs() {
    assert!(stub_path("db.sqlite"));
    assert!(!stub_path(""));
    assert!(!stub_path(":memory:"));
    assert_eq!(open_path(false, Some(b"a")), Err(SQLITE_MISUSE));
    assert_eq!(open_path(true, None), Err(SQLITE_MISUSE));
    assert_eq!(open_path(true, Some(b"a.db")), Ok("a.db".to_string()));
    assert_eq!(open_path(true, Some(b"a\xff")), Ok("a\u{fffd}".to_string()));
}

#[test]
fn stubs_name_the_broker() {
    let stub: &[u8] = b"SQLITEBROKER1\nhost:1\n";
    assert_eq!(stub_addr("a", Some(stub)).as_deref(), Some("host:1"));
    assert_eq!(stub_addr(":memory:", Some(stub)), None);
    assert_eq!(stub_addr("", Some(stub)), None);
    assert_eq!(stub_addr("a", None), None);
    assert_eq!(stub_addr("a", Some(b"SQLite format 3\0")), None);
}

#[test]
fn a_refused_session_says_why() {
    assert_eq!(session_refusal(true, None), None);
    assert_eq!(
        session_refusal(false, None).as_deref(),
        Some("broker rejected session")
    );
    assert_eq!(
        session_refusal(false, Some("locked".to_string())).as_deref(),
        Some("locked")
    );
}

#[test]
fn rows_are_handed_out_in_order() {
    let mut shim = opened();
    prepared(&mut shim, 10, "SELECT name, score FROM note");
    match sqlite3_step(&mut shim, 10) {
        StepCall::Call { db, sql, params } => {
            assert_eq!(db, 1);
            assert_eq!(sql, "SELECT name, score FROM note");
            assert!(params.is_empty());
        }
        other => panic!("{other:?}"),
    }
    assert_eq!(step_stmt(&mut shim, 10, Ok(rows())), SQLITE_ROW);
    assert_eq!(here(sqlite3_column_count(&shim, 10)), 2);
    assert_eq!(here(sqlite3_data_count(&shim, 10)), 2);
    assert_eq!(here(sqlite3_stmt_busy(&shim, 10)), 1);
    assert_eq!(shown(sqlite3_column_text(&shim, 10, 0)).as_deref(), Some("12"));
    assert_eq!(here(sqlite3_column_type(&shim, 10, 0)), 3);
    assert_eq!(here(sqlite3_column_int64(&shim, 10, 0)), 12);
    assert_eq!(here(sqlite3_column_type(&shim, 10, 1)), 2);
    assert_eq!(here(sqlite3_column_int64(&shim, 10, 1)), 2);
    assert_eq!(here(sqlite3_column_bytes(&shim, 10, 1)), 3);
    match here(sqlite3_column_double(&shim, 10, 1)) {
        Double::Bits { v } => assert_eq!(f64::from_bits(v), 2.5),
        other => panic!("{other:?}"),
    }
    assert!(matches!(
        here(sqlite3_column_double(&shim, 10, 0)),
        Double::Text { v } if v == "12"
    ));
    assert_eq!(shown(sqlite3_column_text(&shim, 10, 2)), None);
    assert_eq!(shown(sqlite3_column_text(&shim, 10, -1)), None);

    assert!(matches!(
        sqlite3_step(&mut shim, 10),
        StepCall::Done { rc: SQLITE_ROW }
    ));
    assert_eq!(here(sqlite3_column_type(&shim, 10, 0)), 4);
    assert_eq!(here(sqlite3_column_bytes(&shim, 10, 0)), 2);
    match here(sqlite3_column_blob(&shim, 10, 0)) {
        Some(ColumnBytes::Blob { bytes }) => assert_eq!(bytes, &vec![0u8, 255]),
        other => panic!("{other:?}"),
    }
    assert_eq!(
        shown(sqlite3_column_text(&shim, 10, 0)).as_deref(),
        Some(" \u{fffd}")
    );
    assert_eq!(here(sqlite3_column_type(&shim, 10, 1)), 5);
    assert!(here(sqlite3_column_blob(&shim, 10, 1)).is_none());

    assert!(matches!(
        sqlite3_step(&mut shim, 10),
        StepCall::Done { rc: SQLITE_ROW }
    ));
    assert_eq!(here(sqlite3_column_int64(&shim, 10, 0)), 4294967301);
    assert_eq!(here(sqlite3_column_int(&shim, 10, 0)), 5);
    assert!(matches!(
        here(sqlite3_column_blob(&shim, 10, 0)),
        Some(ColumnBytes::Text { .. })
    ));
    assert!(here(sqlite3_column_blob(&shim, 10, 1)).is_none());

    assert!(matches!(
        sqlite3_step(&mut shim, 10),
        StepCall::Done { rc: SQLITE_DONE }
    ));
    assert_eq!(here(sqlite3_stmt_busy(&shim, 10)), 0);
    assert_eq!(here(sqlite3_data_count(&shim, 10)), 0);
    assert_eq!(here(sqlite3_changes(&shim, 1)), 1);
    assert_eq!(here(sqlite3_total_changes(&shim, 1)), 5);
    assert_eq!(here(sqlite3_last_insert_rowid(&shim, 1)), 9);
    assert_eq!(here(sqlite3_get_autocommit(&shim, 1)), 0);
}

#[test]
fn a_reset_statement_runs_again_with_its_values() {
    let mut shim = opened();
    prepared(&mut shim, 10, "SELECT :a");
    assert_eq!(here(sqlite3_bind_int(&mut shim, 10, 1, 5)), SQLITE_OK);
    assert_eq!(here(sqlite3_bind_int64(&mut shim, 10, 1, 6)), SQLITE_OK);
    assert!(matches!(sqlite3_step(&mut shim, 10), StepCall::Call { .. }));
    step_stmt(&mut shim, 10, Ok(rows()));
    assert_eq!(here(sqlite3_bind_null(&mut shim, 10, 1)), SQLITE_MISUSE);
    assert_eq!(here(sqlite3_reset(&mut shim, 10)), SQLITE_OK);
    match sqlite3_step(&mut shim, 10) {
        StepCall::Call { params, .. } => {
            assert_eq!(params.len(), 1);
            assert!(matches!(params[0].value, Cell::Int { v: 6 }));
        }
        other => panic!("{other:?}"),
    }
    assert_eq!(here(sqlite3_clear_bindings(&mut shim, 10)), SQLITE_OK);
    match sqlite3_step(&mut shim, 10) {
        StepCall::Call { params, .. } => assert!(params.is_empty()),
        other => panic!("{other:?}"),
    }
}

#[test]
fn a_statement_that_fails_keeps_failing() {
    let mut shim = opened();
    prepared(&mut shim, 10, "INSERT");
    let mut r = ok_closed();
    r.ok = false;
    r.code = 19;
    r.message = "UNIQUE constraint failed\0x".to_string();
    assert_eq!(step_stmt(&mut shim, 10, Ok(r)), 19);
    assert_eq!(here(sqlite3_errcode(&shim, 1)), 19);
    assert_eq!(
        shown(sqlite3_errmsg(&shim, 1)).as_deref(),
        Some("UNIQUE constraint failed x")
    );
    assert!(matches!(
        sqlite3_step(&mut shim, 10),
        StepCall::Done { rc: 19 }
    ));
    here(sqlite3_reset(&mut shim, 10));
    assert_eq!(
        step_stmt(&mut shim, 10, Err("broken pipe".to_string())),
        SQLITE_ERROR
    );
    assert_eq!(
        shown(sqlite3_errmsg(&shim, 1)).as_deref(),
        Some("broken pipe")
    );
}

#[test]
fn closing_waits_for_the_last_statement() {
    let mut shim = opened();
    prepared(&mut shim, 10, "SELECT 1");
    prepared(&mut shim, 11, "SELECT 2");
    assert_eq!(here(sqlite3_next_stmt(&shim, 1, 0)), 10);
    assert_eq!(here(sqlite3_next_stmt(&shim, 1, 10)), 11);
    assert_eq!(here(sqlite3_next_stmt(&shim, 1, 11)), 0);
    assert_eq!(here(sqlite3_next_stmt(&shim, 1, 12)), 0);
    let Closed { rc, shutdown } = here(sqlite3_close(&mut shim, 1));
    assert_eq!((rc, shutdown), (SQLITE_BUSY, false));
    let Closed { rc, shutdown } = here(sqlite3_close_v2(&mut shim, 1));
    assert_eq!((rc, shutdown), (SQLITE_OK, false));
    match sqlite3_step(&mut shim, 10) {
        StepCall::Done { rc } => assert_eq!(rc, SQLITE_ERROR),
        other => panic!("{other:?}"),
    }
    assert_eq!(
        shown(sqlite3_errmsg(&shim, 1)).as_deref(),
        Some("connection is closed")
    );
    assert_eq!(here(sqlite3_finalize(&mut shim, 10)), None);
    assert!(shim.is_db(1));
    assert_eq!(here(sqlite3_finalize(&mut shim, 11)), Some(1));
    assert!(!shim.is_db(1));
    assert!(is_forward(&sqlite3_finalize(&mut shim, 11)));
}

#[test]
fn closing_a_free_connection_ends_its_session() {
    let mut shim = opened();
    let Closed { rc, shutdown } = here(sqlite3_close(&mut shim, 1));
    assert_eq!((rc, shutdown), (SQLITE_OK, true));
    assert!(is_forward(&sqlite3_close(&mut shim, 1)));
    assert_eq!(here(sqlite3_close(&mut shim, 0)).rc, SQLITE_OK);
    assert_eq!(here(sqlite3_finalize(&mut shim, 0)), None);
}

#[test]
fn connections_do_not_disturb_each_other() {
    let mut shim = opened();
    sqlite3_open_v2(&mut shim, 2, "other.sqlite");
    prepared(&mut shim, 10, "SELECT 1");
    here(refuse(&mut shim, 2, Unsupported::Blob));
    assert_eq!(here(sqlite3_errcode(&shim, 1)), 0);
    assert!(here(sqlite3_close(&mut shim, 2)).shutdown);
    assert!(shim.is_db(1) && shim.is_stmt(10));
    assert_eq!(here(sqlite3_next_stmt(&shim, 1, 0)), 10);
}

#[test]
fn scripts_hand_rows_to_the_callback() {
    let mut shim = opened();
    match sqlite3_exec(&mut shim, 1, Some(b"SELECT 1\0garbage")) {
        ExecCall::Call { sql } => assert_eq!(sql, "SELECT 1"),
        other => panic!("{other:?}"),
    }
    let mut r = rows();
    r.columns = vec!["name".to_string()];
    let mut execution = match exec_sql(&mut shim, 1, Ok(r)) {
        ExecRun::Rows { execution } => execution,
        other => panic!("{other:?}"),
    };
    let row = execution.next_row().unwrap();
    assert_eq!(
        row.values.iter().map(text).collect::<Vec<_>>(),
        vec!["12", "2.5"]
    );
    assert_eq!(
        row.names.iter().map(text).collect::<Vec<_>>(),
        vec!["name", ""]
    );
    let (rc, errmsg) = execution.abort(&mut shim);
    assert_eq!(rc, SQLITE_ABORT);
    assert!(matches!(errmsg, Errmsg::Given { text } if text == "callback aborted"));
    assert_eq!(here(sqlite3_errcode(&shim, 1)), SQLITE_ABORT);
    assert_eq!(here(sqlite3_changes(&shim, 1)), 1);
    assert!(execution.next_row().is_some());
    assert!(execution.next_row().is_some());
    assert!(execution.next_row().is_none());
}

#[test]
fn a_callback_gets_every_row_in_turn() {
    let mut shim = opened();
    let mut execution = match exec_sql(&mut shim, 1, Ok(rows())) {
        ExecRun::Rows { execution } => execution,
        other => panic!("{other:?}"),
    };
    let count = execution.resp.rows.len();
    assert!(count > 1);
    for at in 0..count {
        match execution.step(&mut shim, true, 0) {
            ExecStep::Callback { row } => {
                assert_eq!(row.values.len(), execution.resp.rows[at].len());
                if at == 0 {
                    assert_eq!(text(&row.values[0]), "12");
                }
            }
            other => panic!("{other:?}"),
        }
    }
    for _ in 0..2 {
        assert!(matches!(
            execution.step(&mut shim, true, 0),
            ExecStep::Done {
                rc: SQLITE_OK,
                errmsg: Errmsg::Cleared
            }
        ));
    }
    assert_eq!(here(sqlite3_errcode(&shim, 1)), SQLITE_OK);
}

#[test]
fn a_callback_that_refuses_ends_the_script() {
    let mut shim = opened();
    let mut execution = match exec_sql(&mut shim, 1, Ok(rows())) {
        ExecRun::Rows { execution } => execution,
        other => panic!("{other:?}"),
    };
    assert!(matches!(
        execution.step(&mut shim, true, 0),
        ExecStep::Callback { .. }
    ));
    match execution.step(&mut shim, true, -7) {
        ExecStep::Done { rc, errmsg } => {
            assert_eq!(rc, SQLITE_ABORT);
            assert!(matches!(errmsg, Errmsg::Given { text } if text == "callback aborted"));
        }
        other => panic!("{other:?}"),
    }
    assert_eq!(execution.at, 1);
    assert_eq!(here(sqlite3_errcode(&shim, 1)), SQLITE_ABORT);
    assert_eq!(
        shown(sqlite3_errmsg(&shim, 1)),
        Some("callback aborted".to_string())
    );
}

#[test]
fn a_script_without_a_callback_hands_out_nothing() {
    let mut shim = opened();
    let mut execution = match exec_sql(&mut shim, 1, Ok(rows())) {
        ExecRun::Rows { execution } => execution,
        other => panic!("{other:?}"),
    };
    assert!(matches!(
        execution.step(&mut shim, false, 0),
        ExecStep::Done {
            rc: SQLITE_OK,
            errmsg: Errmsg::Cleared
        }
    ));
    assert_eq!(execution.at, 0);
}

#[test]
fn a_refused_connection_gives_no_handle() {
    let mut shim = Shim::new();
    assert_eq!(
        open_outcome(&mut shim, 0, "db.sqlite", true),
        SQLITE_CANTOPEN
    );
    assert_eq!(open_outcome(&mut shim, 3, "db.sqlite", true), SQLITE_CANTOPEN);
    assert!(!shim.is_db(3));
    assert_eq!(open_outcome(&mut shim, 3, "db.sqlite", false), SQLITE_OK);
    assert!(shim.is_db(3));
}

#[test]
fn text_that_is_handed_over_arrives_unchanged() {
    let source = "SELECT 'h\u{e9}llo \u{1f600}'";
    assert_eq!(sql_from(Some(source.as_bytes())), source);
}

#[test]
fn scripts_that_fail_say_why() {
    let mut shim = opened();
    assert!(matches!(
        sqlite3_exec(&mut shim, 1, None),
        ExecCall::Done {
            rc: SQLITE_MISUSE,
            errmsg: Errmsg::Kept
        }
    ));
    assert!(matches!(
        sqlite3_exec(&mut shim, 2, None),
        ExecCall::Forward
    ));
    let mut r = ok_closed();
    r.ok = false;
    match exec_sql(&mut shim, 1, Ok(r)) {
        ExecRun::Failed {
            rc,
            errmsg: Errmsg::Given { text },
        } => assert_eq!((rc, text.as_str()), (SQLITE_ERROR, "sql error")),
        other => panic!("{other:?}"),
    }
}

#[test]
fn only_the_first_statement_is_compiled() {
    let mut shim = opened();
    let sql = "SELECT 1; SELECT 2";
    let done = prepare_v2(&mut shim, 1, sql.to_string(), Ok(meta(9)), 10);
    assert_eq!((done.rc, done.tail, done.created), (SQLITE_OK, Some(9), true));
    assert_eq!(shown(sqlite3_sql(&shim, 10)).as_deref(), Some("SELECT 1;"));
    assert_eq!(here(sqlite3_expanded_sql(&shim, 10)), "SELECT 1;");
    assert_eq!(here(sqlite3_db_handle(&shim, 10)), 1);
    assert_eq!(here(sqlite3_stmt_readonly(&shim, 10)), 1);
    assert_eq!(
        shown(sqlite3_column_name(&shim, 10, 0)).as_deref(),
        Some("name")
    );
    assert_eq!(shown(sqlite3_column_name(&shim, 10, 2)), None);
    assert_eq!(
        shown(sqlite3_column_decltype(&shim, 10, 0)).as_deref(),
        Some("TEXT")
    );
    assert_eq!(shown(sqlite3_column_decltype(&shim, 10, 1)), None);
}

#[test]
fn comments_compile_to_nothing() {
    let mut shim = opened();
    let mut r = ok_closed();
    r.empty = true;
    r.tail = 99;
    let done = prepare_v2(&mut shim, 1, "-- x".to_string(), Ok(r), 10);
    assert_eq!((done.rc, done.tail, done.created), (SQLITE_OK, Some(4), false));
    assert!(!shim.is_stmt(10));
}

#[test]
fn a_tail_inside_a_character_is_an_error() {
    let mut shim = opened();
    let done = prepare_v2(&mut shim, 1, "\u{e9}".to_string(), Ok(meta(1)), 10);
    assert_eq!(
        (done.rc, done.tail, done.created),
        (SQLITE_ERROR, Some(1), false)
    );
}

#[test]
fn compiling_checks_its_arguments() {
    let mut shim = opened();
    assert!(matches!(
        sqlite3_prepare_v2(&mut shim, false, 1, Some(b"x"), -1),
        PrepareCall::Done {
            rc: SQLITE_MISUSE,
            tail: None
        }
    ));
    assert!(matches!(
        sqlite3_prepare_v2(&mut shim, true, 1, None, -1),
        PrepareCall::Done {
            rc: SQLITE_MISUSE,
            tail: None
        }
    ));
    assert!(matches!(
        sqlite3_prepare_v2(&mut shim, true, 5, Some(b"x"), -1),
        PrepareCall::Forward
    ));
    assert!(matches!(
        sqlite3_prepare_v2(&mut shim, true, 1, Some(b"SELECT 1"), 8),
        PrepareCall::Call { tail: None, .. }
    ));
    let done = prepare_v2(
        &mut shim,
        1,
        "x".to_string(),
        Err("gone".to_string()),
        10,
    );
    assert_eq!((done.rc, done.tail, done.created), (SQLITE_ERROR, None, false));
}

#[test]
fn parameters_are_found_by_name() {
    let mut shim = opened();
    prepared(&mut shim, 10, "SELECT 1");
    assert_eq!(here(sqlite3_bind_parameter_count(&shim, 10)), 3);
    assert_eq!(
        shown(sqlite3_bind_parameter_name(&shim, 10, 1)).as_deref(),
        Some(":a")
    );
    assert_eq!(shown(sqlite3_bind_parameter_name(&shim, 10, 2)), None);
    assert_eq!(shown(sqlite3_bind_parameter_name(&shim, 10, 0)), None);
    for (name, index) in [
        (":a", 1),
        ("a", 1),
        ("@b", 3),
        ("b", 3),
        (":b", 0),
        ("?1", 0),
        ("c", 0),
    ] {
        assert_eq!(
            here(sqlite3_bind_parameter_index(
                &shim,
                10,
                Some(name.as_bytes())
            )),
            index
        );
    }
    assert_eq!(here(sqlite3_bind_parameter_index(&shim, 10, None)), 0);
}

fn bound_cell(shim: &mut Shim) -> Cell {
    match sqlite3_step(shim, 10) {
        StepCall::Call { params, .. } => params[params.len() - 1].value.clone(),
        other => panic!("{other:?}"),
    }
}

#[test]
fn values_are_bound() {
    let mut shim = opened();
    prepared(&mut shim, 10, "SELECT 1");
    let Bound { rc, release } = here(sqlite3_bind_text(&mut shim, 10, 1, Some(b"hi\0there")));
    assert_eq!((rc, release), (SQLITE_OK, true));
    assert!(matches!(bound_cell(&mut shim), Cell::Text { v } if v == "hi"));
    here(sqlite3_bind_text(&mut shim, 10, 1, None));
    assert!(matches!(bound_cell(&mut shim), Cell::Null));
    let Bound { rc, release } = here(sqlite3_bind_blob(&mut shim, 10, 1, Some(b"\x00\x01\xff"), 3));
    assert_eq!((rc, release), (SQLITE_OK, true));
    assert!(matches!(bound_cell(&mut shim), Cell::Blob { v } if v == "AAH/"));
    here(sqlite3_bind_blob(&mut shim, 10, 1, None, 0));
    assert!(matches!(bound_cell(&mut shim), Cell::Blob { v } if v.is_empty()));
    here(sqlite3_bind_zeroblob(&mut shim, 10, 1, 3));
    assert!(matches!(bound_cell(&mut shim), Cell::Blob { v } if v == "AAAA"));
    let half = Real {
        bits: 0.5f64.to_bits(),
        text: "0.5".to_string(),
        truncated: 0,
    };
    here(sqlite3_bind_double(&mut shim, 10, 2, half));
    assert!(matches!(bound_cell(&mut shim), Cell::Real { v } if v.text == "0.5"));
}

#[test]
fn values_that_cannot_be_bound_are_refused() {
    let mut shim = opened();
    prepared(&mut shim, 10, "SELECT 1");
    assert_eq!(here(sqlite3_bind_null(&mut shim, 10, 0)), SQLITE_MISUSE);
    let Bound { rc, release } = here(sqlite3_bind_text(&mut shim, 10, -1, Some(b"x")));
    assert_eq!((rc, release), (SQLITE_MISUSE, false));
    let Bound { rc, release } = here(sqlite3_bind_blob(&mut shim, 10, 1, None, 1));
    assert_eq!((rc, release), (SQLITE_MISUSE, false));
    let Bound { rc, release } = here(sqlite3_bind_blob(&mut shim, 10, 1, Some(b""), -1));
    assert_eq!((rc, release), (SQLITE_TOOBIG, true));
    assert_eq!(
        here(sqlite3_bind_zeroblob(&mut shim, 10, 1, -1)),
        SQLITE_TOOBIG
    );
    assert_eq!(
        here(sqlite3_bind_zeroblob(&mut shim, 10, 1, 8 * 1024 * 1024 + 1)),
        SQLITE_TOOBIG
    );
    assert!(is_forward(&sqlite3_bind_null(&mut shim, 99, 1)));
    assert!(release_destructor(8, 8));
    assert!(!release_destructor(0, 8));
    assert!(!release_destructor(u64::MAX, 8));
    assert!(!release_destructor(8, 0));
}

#[test]
fn features_that_are_missing_are_refused() {
    let mut shim = opened();
    let (rc, message) = here(refuse(&mut shim, 1, Unsupported::LoadExtension));
    assert_eq!(rc, SQLITE_ERROR);
    assert_eq!(message, "sqlite-broker does not load extensions");
    let (_, message) = here(refuse(&mut shim, 1, Unsupported::Blob));
    assert_eq!(message, "sqlite-broker does not support incremental blobs");
    let (_, message) = here(refuse(&mut shim, 1, Unsupported::Deserialize));
    assert_eq!(message, "sqlite-broker does not support deserialize");
    here(sqlite3_backup_init(&mut shim, 7, 1));
    assert_eq!(
        shown(sqlite3_errmsg(&shim, 1)).as_deref(),
        Some("sqlite-broker does not support backup")
    );
    assert!(is_forward(&sqlite3_backup_init(&mut shim, 7, 8)));
    assert_eq!(here(accept_setting(&shim, 1)), SQLITE_OK);
    assert!(is_forward(&accept_setting(&shim, 7)));
    assert_eq!(here(sqlite3_limit(&shim, 1, 9)), 32_766);
    assert_eq!(here(sqlite3_db_config(&shim, 1, 7)), (SQLITE_OK, 7));
    assert_eq!(here(sqlite3_db_readonly(&shim, 1)), 0);
    assert_eq!(here(sqlite3_serialize(&shim, 1)), 0);
    prepared(&mut shim, 10, "SELECT 1");
    assert_eq!(shown(column_source(&shim, 10)), None);
    assert!(is_forward(&column_source(&shim, 11)));
}

#[test]
fn keywords_are_found_behind_comments() {
    assert_eq!(keyword("select 1").as_deref(), Some("SELECT"));
    assert_eq!(
        keyword(" \t\r\n\x0c-- x\n/* y */ Insert").as_deref(),
        Some("INSERT")
    );
    assert_eq!(keyword("/* open"), None);
    assert_eq!(keyword("-- only"), None);
    assert_eq!(keyword("(1)"), None);
    assert_eq!(keyword(""), None);
    assert_eq!(keyword("/**/PRAGMA").as_deref(), Some("PRAGMA"));
    assert!(reads_only("explain query plan select 1"));
    assert!(reads_only("values (1)"));
    assert!(!reads_only("WITH x AS (SELECT 1) SELECT 1"));
    assert!(!reads_only("update t set v = 1"));
}

#[test]
fn limits_are_fixed() {
    assert_eq!(limit_value(0), 1_000_000_000);
    assert_eq!(limit_value(1), 1_000_000_000);
    assert_eq!(limit_value(2), 2000);
    assert_eq!(limit_value(3), 1000);
    assert_eq!(limit_value(4), 500);
    assert_eq!(limit_value(5), 25_000);
    assert_eq!(limit_value(6), 100);
    assert_eq!(limit_value(7), 10);
    assert_eq!(limit_value(8), 50_000);
    assert_eq!(limit_value(10), 1000);
    assert_eq!(limit_value(11), 1_000_000);
    assert_eq!(limit_value(-1), 1_000_000);
}

#[test]
fn c_texts_end_once() {
    let t = cstring_lossy("a\0b");
    assert_eq!(t.with_end(), b"a b\0");
    assert_eq!(t.len(), 3);
    assert!(t.is(b"a b"));
    assert!(!t.is(b"a b\0"));
    assert_eq!(sql_from(None), "");
    assert_eq!(sql_from(Some(b"ab\0c")), "ab");
    assert_eq!(sql_from(Some(b"\xffx")), "\u{fffd}x");
}

#[test]
fn memory_comes_back_once() {
    let mut shim = Shim::new();
    shim.note_allocated(64);
    assert!(shim.forget_allocated(64));
    assert!(!shim.forget_allocated(64));
}
