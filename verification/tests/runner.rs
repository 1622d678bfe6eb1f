//! Running requests on a connection.
use sqlite_broker::base64::encode_base64;
use sqlite_broker::protocol::{Cell, Param, Real};
use sqlite_broker::runner::{
    bind_value, cell_of, check_c_text, fetch_for, find_zero, prepare_response, sqlite_error,
    tail_has_sql, unfit_text, BindValue, Compiled, Fetch, Fetched, Script, ScriptAction, ScriptEvent, Status,
    SQLITE_DONE, SQLITE_OK, SQLITE_ROW,
};

const STATUS: Status = Status {
    changes: 3,
    last_insert_rowid: 7,
    autocommit: true,
    total_changes: 11,
};

fn compiled(columns: i32, tail: Option<usize>) -> ScriptEvent {
    ScriptEvent::Compiled {
        rc: SQLITE_OK,
        statement: true,
        columns,
        tail,
    }
}

fn number(index: i32, v: i64) -> Param {
    Param {
        index,
        value: Cell::Int { v },
    }
}

#[test]
fn a_script_runs_its_statements_one_after_the_other() {
    let sql = "INSERT 1; SELECT 2";
    let (mut s, first) = Script::begin(sql.to_string(), Vec::new());
    assert!(matches!(first, ScriptAction::Compile { offset: 0 }));
    assert!(matches!(s.step(compiled(0, Some(9))), ScriptAction::Step));
    assert!(matches!(
        s.step(ScriptEvent::Stepped { rc: SQLITE_DONE }),
        ScriptAction::Compile { offset: 9 }
    ));
    assert!(matches!(
        s.step(compiled(2, Some(sql.len()))),
        ScriptAction::ReadNames { count: 2 }
    ));
    assert!(matches!(
        s.step(ScriptEvent::Named {
            names: vec![Some("v".to_string()), None]
        }),
        ScriptAction::Step
    ));
    assert!(matches!(
        s.step(ScriptEvent::Stepped { rc: SQLITE_ROW }),
        ScriptAction::ReadRow { count: 2 }
    ));
    assert!(matches!(
        s.step(ScriptEvent::Row {
            cells: vec![Cell::Int { v: 2 }, Cell::Null]
        }),
        ScriptAction::Step
    ));
    assert!(matches!(
        s.step(ScriptEvent::Stepped { rc: SQLITE_DONE }),
        ScriptAction::Finish
    ));
    let r = s.response(STATUS);
    assert!(r.ok);
    assert_eq!(r.columns, vec!["v", "col1"]);
    assert_eq!(r.rows.len(), 1);
    assert_eq!(
        (r.changes, r.last_insert_rowid, r.total_changes, r.autocommit),
        (3, 7, 11, true)
    );
    assert_eq!((r.code, r.message.as_str(), r.empty), (0, "", false));
}

#[test]
fn a_script_ends_with_its_comments() {
    let (mut s, _) = Script::begin("SELECT 1 -- x".to_string(), Vec::new());
    s.step(compiled(0, Some(8)));
    s.step(ScriptEvent::Stepped { rc: SQLITE_DONE });
    assert!(matches!(
        s.step(ScriptEvent::Compiled {
            rc: SQLITE_OK,
            statement: false,
            columns: 0,
            tail: None
        }),
        ScriptAction::Finish
    ));
    assert!(s.response(STATUS).ok);
}

#[test]
fn parameters_are_bound_in_order() {
    let (mut s, _) = Script::begin(
        "INSERT INTO t VALUES (?, ?)".to_string(),
        vec![number(1, 5), number(2, 6)],
    );
    assert!(matches!(
        s.step(compiled(0, None)),
        ScriptAction::Bind {
            index: 1,
            value: BindValue::Int { v: 5 }
        }
    ));
    assert!(matches!(
        s.step(ScriptEvent::Bound { rc: SQLITE_OK }),
        ScriptAction::Bind {
            index: 2,
            value: BindValue::Int { v: 6 }
        }
    ));
    assert!(matches!(
        s.step(ScriptEvent::Bound { rc: SQLITE_OK }),
        ScriptAction::Step
    ));
}

#[test]
fn a_value_that_cannot_be_bound_ends_the_run() {
    let (mut s, _) = Script::begin("SELECT 1".to_string(), vec![number(4, 5)]);
    s.step(compiled(0, None));
    assert!(matches!(
        s.step(ScriptEvent::Bound { rc: 25 }),
        ScriptAction::Finish
    ));
    let r = s.response(STATUS);
    assert!(!r.ok);
    assert_eq!((r.code, r.message.as_str()), (1, "bind 4 failed (25)"));
    assert_eq!((r.changes, r.last_insert_rowid, r.total_changes), (0, 7, 11));
}

#[test]
fn parameters_take_a_single_statement() {
    let (mut s, _) = Script::begin("SELECT ?; SELECT 2".to_string(), vec![number(1, 5)]);
    s.step(compiled(0, Some(9)));
    s.step(ScriptEvent::Bound { rc: SQLITE_OK });
    assert!(matches!(
        s.step(ScriptEvent::Stepped { rc: SQLITE_DONE }),
        ScriptAction::Finish
    ));
    let r = s.response(STATUS);
    assert_eq!(r.message, "bound parameters require a single statement");

    let (mut s, _) = Script::begin("SELECT ?;  \n".to_string(), vec![number(1, 5)]);
    s.step(compiled(0, Some(9)));
    s.step(ScriptEvent::Bound { rc: SQLITE_OK });
    assert!(matches!(
        s.step(ScriptEvent::Stepped { rc: SQLITE_DONE }),
        ScriptAction::Finish
    ));
    assert!(s.response(STATUS).ok);
}

#[test]
fn errors_of_the_connection_are_reported() {
    let (mut s, _) = Script::begin("SELEC".to_string(), Vec::new());
    assert!(matches!(
        s.step(ScriptEvent::Compiled {
            rc: 1,
            statement: false,
            columns: 0,
            tail: None
        }),
        ScriptAction::ReadError
    ));
    assert!(matches!(
        s.step(ScriptEvent::Failed {
            code: 0,
            message: None
        }),
        ScriptAction::Finish
    ));
    let r = s.response(STATUS);
    assert_eq!((r.code, r.message.as_str()), (1, "sqlite error"));
    assert_eq!(
        sqlite_error(5, Some("busy".to_string())),
        (5, "busy".to_string())
    );
}

#[test]
fn a_zero_byte_in_a_script_is_refused() {
    let (s, first) = Script::begin("SE\0LECT".to_string(), Vec::new());
    assert!(matches!(first, ScriptAction::Finish));
    let r = s.response(STATUS);
    assert_eq!(
        (r.code, r.message.as_str()),
        (1, "nul byte found in provided data at position: 2")
    );
}

#[test]
fn values_to_bind_keep_their_bytes() {
    assert!(matches!(bind_value(&Cell::Null), Ok(BindValue::Null)));
    let real = Real {
        bits: 1.5f64.to_bits(),
        text: "1.5".to_string(),
        truncated: 1,
    };
    match bind_value(&Cell::Real { v: real }) {
        Ok(BindValue::Real { bits }) => assert_eq!(f64::from_bits(bits), 1.5),
        other => panic!("{other:?}"),
    }
    match bind_value(&Cell::Blob {
        v: encode_base64(b"\x00\x01\xff"),
    }) {
        Ok(BindValue::Blob { v }) => assert_eq!(v, b"\x00\x01\xff"),
        other => panic!("{other:?}"),
    }
    assert!(bind_value(&Cell::Blob {
        v: "x".to_string()
    })
    .is_err());
    match bind_value(&Cell::Text {
        v: "a\0b".to_string(),
    }) {
        Err(why) => assert_eq!(why, "nul byte found in provided data at position: 1"),
        other => panic!("{other:?}"),
    }
}

#[test]
fn fetched_values_become_cells() {
    assert_eq!(fetch_for(5), Fetch::Null);
    assert_eq!(fetch_for(1), Fetch::Int);
    assert_eq!(fetch_for(2), Fetch::Real);
    assert_eq!(fetch_for(4), Fetch::Blob);
    assert_eq!(fetch_for(3), Fetch::Text);
    assert!(matches!(
        cell_of(Fetched::Text { v: None }),
        Cell::Null
    ));
    match cell_of(Fetched::Blob {
        v: vec![0, 1, 255],
    }) {
        Cell::Blob { v } => assert_eq!(v, "AAH/"),
        other => panic!("{other:?}"),
    }
}

#[test]
fn tails_are_looked_at_behind_whitespace() {
    assert!(!tail_has_sql("SELECT 1; \t\n", 9));
    assert!(tail_has_sql("SELECT 1; x", 9));
    assert!(!tail_has_sql("a", 1));
    assert!(tail_has_sql("\u{e9}", 1));
    assert!(check_c_text("plain").is_ok());
    assert_eq!(find_zero(b"ab"), 2);
    assert_eq!(find_zero(b"a\0b"), 1);
}

#[test]
fn text_that_cannot_be_compiled_is_refused() {
    assert!(unfit_text("SELECT 1").is_none());
    let r = prepare_response(unfit_text("\0").unwrap(), STATUS);
    assert!(!r.ok);
    assert_eq!(
        (r.code, r.message.as_str()),
        (1, "nul byte found in provided data at position: 0")
    );
}

#[test]
fn rows_of_all_statements_are_answered_in_order() {
    let (mut s, _) = Script::begin("SELECT 1;SELECT 2".to_string(), Vec::new());
    s.step(compiled(1, Some(9)));
    s.step(ScriptEvent::Named {
        names: vec![Some("a".to_string())],
    });
    for (tail, v) in [(9usize, 1i64), (17, 2)] {
        if v == 2 {
            assert!(matches!(
                s.step(compiled(1, Some(tail))),
                ScriptAction::Step
            ));
        }
        s.step(ScriptEvent::Stepped { rc: SQLITE_ROW });
        s.step(ScriptEvent::Row {
            cells: vec![Cell::Int { v }],
        });
        s.step(ScriptEvent::Stepped { rc: SQLITE_DONE });
    }
    let r = s.response(STATUS);
    let values: Vec<String> = r.rows.iter().map(|row| row[0].render()).collect();
    assert_eq!(values, vec!["1", "2"]);
    assert_eq!(r.columns, vec!["a"]);
}

#[test]
fn compiling_describes_the_statement() {
    let r = prepare_response(
        Compiled::Statement {
            tail: 12,
            columns: vec![Some("a".to_string()), None],
            decltypes: vec![Some("TEXT".to_string()), None],
            param_names: vec![Some(":n".to_string()), None],
        },
        STATUS,
    );
    assert!(r.ok && !r.empty);
    assert_eq!((r.tail, r.param_count), (12, 2));
    assert_eq!(r.columns, vec!["a", "col1"]);
    assert_eq!(r.decltypes, vec!["TEXT", ""]);
    assert_eq!(r.param_names, vec![":n", ""]);

    let r = prepare_response(Compiled::Nothing { tail: 4 }, STATUS);
    assert!(r.ok && r.empty);
    assert_eq!((r.tail, r.param_count, r.columns.len()), (4, 0, 0));

    let r = prepare_response(
        Compiled::Failed {
            code: 1,
            message: Some("near \"SELEC\": syntax error".to_string()),
        },
        STATUS,
    );
    assert!(!r.ok);
    assert_eq!(r.message, "near \"SELEC\": syntax error");
}
