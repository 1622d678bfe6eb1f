//! What the library inside a client promises: it reports what the broker
//! answered, runs a statement with the text and the values that the program gave,
//! and keeps connections and statements apart.
use vstd::prelude::*;
use vstd::utf8::{
    decode_utf8, encode_utf8, encode_utf8_decode_utf8, encode_utf8_valid_utf8, is_char_boundary,
};

use crate::api::{
    blob_value, is_main_schema, next_in, refusal, zeros, Unsupported, MAX_ZEROBLOB,
};
use crate::base64::{encoded, encoded_length};
use crate::calls::{aborted, exec_names, exec_values};
use crate::ctext::c_bytes;
use crate::frame::MAX_BODY;
use crate::lifetimes::value_at;
use crate::number::decimal_int;
use crate::protocol::{Cell, Response};
use crate::proxy::{
    failure_text, may_be_stub, DbState, SQLITE_ABORT, SQLITE_BUSY, SQLITE_CANTOPEN, SQLITE_ERROR,
    SQLITE_MISUSE, SQLITE_TOOBIG,
};
use crate::runner::{
    SQLITE_BLOB, SQLITE_DONE, SQLITE_FLOAT, SQLITE_INTEGER, SQLITE_NULL, SQLITE_OK, SQLITE_ROW,
    SQLITE_TEXT,
};
use crate::shim::{filter_keeps_others, Routed, ShimState};
use crate::statement::limit;

verus! {

// ------------------------------------------------------------- connections

/// A connection reports what the broker answered: the counts, the row inserted
/// last, whether a transaction is open, and the error or that there is none.
/// Without an answer it reports why, and the counts stay.
pub proof fn a_connection_reports_the_answer(d: DbState, outcome: Result<Response, String>)
    ensures
        ({
            let t = d.called(outcome);
            &&& t.filename == d.filename
            &&& t.stmts == d.stmts
            &&& t.closed == d.closed
            &&& match outcome {
                Ok(resp) => {
                    &&& t.changes == resp.changes
                    &&& t.total_changes == resp.total_changes
                    &&& t.last_rowid == resp.last_insert_rowid
                    &&& t.autocommit == if resp.autocommit {
                        1int
                    } else {
                        0
                    }
                    &&& resp.ok ==> t.errcode == 0 && t.errmsg == c_bytes("not an error"@)
                    &&& !resp.ok ==> t.errmsg == c_bytes(resp.message@) && t.errcode == if resp.code
                        == 0 {
                        1
                    } else {
                        resp.code as int
                    }
                },
                Err(why) => {
                    &&& t.errcode == 1
                    &&& t.errmsg == c_bytes(why@)
                    &&& t.changes == d.changes
                    &&& t.total_changes == d.total_changes
                    &&& t.last_rowid == d.last_rowid
                    &&& t.autocommit == d.autocommit
                },
            }
        }),
{
}

/// A connection that was just opened has nothing to report.
pub proof fn a_new_connection_has_nothing_to_report(s: ShimState, db: u64, path: Seq<char>)
    requires
        !s.dbs.contains_key(db),
    ensures
        ({
            let t = s.opened(db, path);
            let d = t.dbs[db];
            &&& t.dbs.contains_key(db)
            &&& t.dbs.remove(db) == s.dbs
            &&& t.stmts == s.stmts
            &&& d.filename == c_bytes(path)
            &&& d.errcode == 0
            &&& d.errmsg == c_bytes("not an error"@)
            &&& d.changes == 0
            &&& d.total_changes == 0
            &&& d.last_rowid == 0
            &&& d.autocommit == 1
            &&& d.stmts.len() == 0
            &&& !d.closed
        }),
{
    assert(s.opened(db, path).dbs.remove(db) =~= s.dbs);
}

/// Closing succeeds on a connection without statements, and with `v2` on any; it
/// is gone at once where it has none. The null handle is closed already, and a
/// handle that is not proxied is not the library's to close.
pub proof fn closing_goes_by_the_statements_left(s: ShimState, db: u64, v2: bool)
    requires
        s.wf(),
    ensures
        match s.closed(db, v2).1 {
            Routed::Forward => db != 0 && !s.dbs.contains_key(db) && s.closed(db, v2).0 == s,
            Routed::Proxied { v } => if db == 0 {
                v.rc == 0 && !v.shutdown && s.closed(db, v2).0 == s
            } else {
                let left = s.dbs[db].stmts.len();
                &&& s.dbs.contains_key(db)
                &&& v.rc == if left == 0 || v2 {
                    0int
                } else {
                    5
                }
                &&& v.shutdown <==> left == 0
                &&& left == 0 ==> s.closed(db, v2).0.dbs == s.dbs.remove(db)
                &&& left > 0 && v2 ==> s.closed(db, v2).0.dbs[db].closed && s.closed(
                    db,
                    v2,
                ).0.dbs.contains_key(db)
                &&& left > 0 && !v2 ==> s.closed(db, v2).0 == s
            },
        },
        s.closed(db, v2).0.stmts == s.stmts,
{
}

// -------------------------------------------------------------- statements

/// A statement that the broker compiled is there with the text, the columns and
/// the parameters that the broker named, and with no values; where there is
/// none, or it failed, no statement is there. Nothing else changes.
pub proof fn a_statement_is_as_the_broker_compiled_it(
    s: ShimState,
    db: u64,
    sql: Seq<char>,
    outcome: Result<Response, String>,
    stmt: u64,
)
    requires
        s.wf(),
        s.dbs.contains_key(db),
        !s.stmts.contains_key(stmt),
        encode_utf8(sql).len() <= usize::MAX,
    ensures
        ({
            let (t, p) = s.prepared(db, sql, outcome, stmt);
            let d = s.dbs[db].called(outcome);
            &&& p.created <==> t.stmts.contains_key(stmt)
            &&& t.stmts.remove(stmt) == s.stmts
            &&& t.dbs.remove(db) == s.dbs.remove(db)
            &&& t.dbs.contains_key(db)
            &&& t.dbs[db].errcode == d.errcode
            &&& t.dbs[db].errmsg == d.errmsg
            &&& t.dbs[db].changes == d.changes
            &&& t.dbs[db].autocommit == d.autocommit
            &&& match outcome {
                Ok(resp) if resp.ok => {
                    let bytes = encode_utf8(sql);
                    let tail = if resp.tail <= bytes.len() {
                        resp.tail as int
                    } else {
                        bytes.len() as int
                    };
                    &&& p.tail == Some(tail as usize)
                    &&& resp.empty ==> p.rc == 0 && !p.created
                    &&& !resp.empty && (tail == 0 || is_char_boundary(bytes, tail)) ==> {
                        let x = t.stmts[stmt];
                        &&& p.rc == 0
                        &&& p.created
                        &&& t.dbs[db].stmts == s.dbs[db].stmts.push(stmt)
                        &&& x.db == db
                        &&& tail == 0 ==> x.sql == sql
                        &&& tail > 0 ==> x.sql == decode_utf8(bytes.subrange(0, tail))
                        &&& x.params.len() == 0
                        &&& !x.started
                        &&& x.param_count == resp.param_count
                        &&& x.columns.len() == resp.columns@.len()
                        &&& forall|i: int|
                            0 <= i < resp.columns@.len() ==> #[trigger] x.columns[i] == c_bytes(
                                resp.columns@[i]@,
                            )
                        &&& x.param_names.len() == resp.param_names@.len()
                        &&& forall|i: int|
                            0 <= i < resp.param_names@.len() ==> #[trigger] x.param_names[i]
                                == if resp.param_names@[i]@.len() == 0 {
                                None
                            } else {
                                Some(c_bytes(resp.param_names@[i]@))
                            }
                        &&& x.decltypes.len() == resp.decltypes@.len()
                        &&& forall|i: int|
                            0 <= i < resp.decltypes@.len() ==> #[trigger] x.decltypes[i]
                                == if resp.decltypes@[i]@.len() == 0 {
                                None
                            } else {
                                Some(c_bytes(resp.decltypes@[i]@))
                            }
                    }
                    &&& !resp.empty && tail != 0 && !is_char_boundary(bytes, tail) ==> p.rc == 1
                        && !p.created
                },
                _ => p.rc == d.errcode && p.rc != 0 && !p.created && p.tail is None,
            }
        }),
{
    let (t, p) = s.prepared(db, sql, outcome, stmt);
    assert(t.stmts.remove(stmt) =~= s.stmts);
    assert(t.dbs.remove(db) =~= s.dbs.remove(db));
}

/// Running a statement hands out the first row of the answer, or says that there
/// is none; a failure is told with its code, and told again until the statement
/// is reset. The statement keeps its text and its values, and no other statement
/// or connection changes.
pub proof fn a_step_gives_what_the_broker_answered(
    s: ShimState,
    stmt: u64,
    outcome: Result<Response, String>,
)
    requires
        s.wf(),
        s.stmts.contains_key(stmt),
        !s.stmts[stmt].started,
    ensures
        ({
            let (t, rc) = s.stepped(stmt, outcome);
            let db = s.stmts[stmt].db;
            let x = t.stmts[stmt];
            &&& t.stmts.contains_key(stmt)
            &&& t.stmts.remove(stmt) == s.stmts.remove(stmt)
            &&& t.dbs == s.dbs.insert(db, s.dbs[db].called(outcome))
            &&& x.started
            &&& x.db == db
            &&& x.sql == s.stmts[stmt].sql
            &&& x.params == s.stmts[stmt].params
            &&& match outcome {
                Ok(resp) if resp.ok => {
                    &&& rc == if resp.rows@.len() > 0 {
                        100int
                    } else {
                        101
                    }
                    &&& resp.rows@.len() > 0 ==> forall|i: i32|
                        0 <= i < resp.rows@[0]@.len() ==> #[trigger] x.cell_at(i) == Some(
                            resp.rows@[0]@[i as int],
                        )
                    &&& resp.columns@.len() > 0 ==> x.columns.len() == resp.columns@.len() && forall|
                        i: int,
                    |
                        0 <= i < resp.columns@.len() ==> #[trigger] x.columns[i] == c_bytes(
                            resp.columns@[i]@,
                        )
                    &&& resp.columns@.len() == 0 ==> x.columns == s.stmts[stmt].columns
                },
                Ok(resp) => {
                    &&& rc == if resp.code == 0 {
                        1
                    } else {
                        resp.code as int
                    }
                    &&& t.advanced(stmt).1 == rc
                    &&& t.advanced(stmt).0 == t
                },
                Err(_) => rc == 1 && t.advanced(stmt).1 == rc && t.advanced(stmt).0 == t,
            }
        }),
{
    let (t, rc) = s.stepped(stmt, outcome);
    let db = s.stmts[stmt].db;
    assert(t.stmts.remove(stmt) =~= s.stmts.remove(stmt));
    assert(t.dbs =~= s.dbs.insert(db, s.dbs[db].called(outcome)));
    if let Ok(resp) = outcome {
        assert(resp.rows.len() == resp.rows@.len());
    }
    assert(t.advanced(stmt).0.stmts =~= t.stmts.insert(stmt, t.stmts[stmt].advanced().0));
    if !(outcome matches Ok(resp) && resp.ok) {
        assert(t.stmts[stmt].advanced().0 == t.stmts[stmt]);
        assert(t.advanced(stmt).0 =~= t);
    }
}

/// A step moves one statement and leaves all others, and all connections, as
/// they are.
pub proof fn a_step_moves_one_statement(s: ShimState, stmt: u64)
    requires
        s.stmts.contains_key(stmt),
    ensures
        s.advanced(stmt).0.stmts.remove(stmt) == s.stmts.remove(stmt),
        s.advanced(stmt).0.dbs == s.dbs,
        s.advanced(stmt).0.stmts[stmt].params == s.stmts[stmt].params,
        s.advanced(stmt).0.stmts[stmt].sql == s.stmts[stmt].sql,
        s.advanced(stmt).0.stmts[stmt].db == s.stmts[stmt].db,
{
    assert(s.advanced(stmt).0.stmts.remove(stmt) =~= s.stmts.remove(stmt));
}

/// A value can be bound to a statement that is not running, at an index from 1
/// on. It is then the value at that index, and no other statement, and no other
/// index, changes.
pub proof fn a_value_is_bound_to_its_index(
    s: ShimState,
    stmt: u64,
    index: i32,
    value: Cell,
    other: i32,
)
    ensures
        ({
            let t = s.bound(stmt, index, value);
            match s.bind_result(stmt, index) {
                Routed::Forward => !s.stmts.contains_key(stmt) && t == s,
                Routed::Proxied { v } => {
                    &&& s.stmts.contains_key(stmt)
                    &&& if s.stmts[stmt].started || index <= 0 {
                        v == 21 && t == s
                    } else {
                        &&& v == 0
                        &&& t.stmts.contains_key(stmt)
                        &&& t.stmts.remove(stmt) == s.stmts.remove(stmt)
                        &&& t.dbs == s.dbs
                        &&& t.stmts[stmt].sql == s.stmts[stmt].sql
                        &&& t.stmts[stmt].db == s.stmts[stmt].db
                        &&& t.stmts[stmt].started == s.stmts[stmt].started
                        &&& value_at(t.stmts[stmt].params, index) == Some(value)
                        &&& other != index ==> value_at(t.stmts[stmt].params, other) == value_at(
                            s.stmts[stmt].params,
                            other,
                        )
                    }
                },
            }
        }),
{
    let t = s.bound(stmt, index, value);
    crate::lifetimes::binding_replaces_one_value(s.stmts[stmt].params, index, value, other);
    if s.stmts.contains_key(stmt) {
        assert(t.stmts.remove(stmt) =~= s.stmts.remove(stmt));
    }
}

/// The statements of a connection are listed one after the other: after none
/// comes the first, after each the next, and after the last none.
pub proof fn statements_are_listed_in_turn(list: Seq<u64>, i: int)
    requires
        list.no_duplicates(),
        !list.contains(0),
        0 <= i < list.len(),
    ensures
        next_in(list, 0) == list[0],
        next_in(list, list[i]) == if i + 1 < list.len() {
            list[i + 1]
        } else {
            0
        },
{
    assert(list[i] != 0);
    following_is_next(list, i);
}

proof fn following_is_next(list: Seq<u64>, i: int)
    requires
        list.no_duplicates(),
        0 <= i < list.len(),
    ensures
        crate::api::following(list, list[i]) == if i + 1 < list.len() {
            list[i + 1]
        } else {
            0
        },
    decreases list.len(),
{
    if i > 0 {
        assert(list[0] != list[i]);
        following_is_next(list.drop_first(), i - 1);
    }
}

/// A blob is bound with the bytes that the program gave, and one of zeros with
/// as many zeros as it asked for.
pub proof fn a_blob_is_what_the_program_gave(bytes: Seq<u8>, n: i32)
    requires
        n >= 0,
        bytes.len() == n,
    ensures
        blob_value(Some(bytes), n) == bytes,
        blob_value(None, n).len() == 0,
        zeros(n as nat).len() == n,
        forall|i: int| 0 <= i < n ==> #[trigger] zeros(n as nat)[i] == 0,
{
    assert(blob_value(Some(bytes), n) =~= bytes);
}

/// The callback of a script gets the text of each value of a row, and the name of
/// each column; a column without a name has an empty one.
pub proof fn a_callback_gets_every_value(row: Seq<Cell>, columns: Seq<String>, i: int)
    requires
        0 <= i < row.len(),
    ensures
        exec_values(row).len() == row.len(),
        match row[i] {
            Cell::Null => exec_values(row)[i] == c_bytes(Seq::<char>::empty()),
            Cell::Int { v } => exec_values(row)[i] == c_bytes(decimal_int(v as int)),
            Cell::Real { v } => exec_values(row)[i] == c_bytes(v.text@),
            Cell::Text { v } => exec_values(row)[i] == c_bytes(v@),
            Cell::Blob { .. } => true,
        },
        exec_names(columns, row.len()).len() >= row.len(),
        i < columns.len() ==> exec_names(columns, row.len())[i] == c_bytes(columns[i]@),
        i >= columns.len() ==> exec_names(columns, row.len())[i].len() == 0,
{
}

/// A failure is told with its own message, and one without a message is told as
/// an error of the SQL.
pub proof fn a_failure_is_told_with_its_message(message: Seq<char>)
    ensures
        message.len() > 0 ==> failure_text(message) == message,
        message.len() == 0 ==> failure_text(message) == "sql error"@,
{
}

/// Any path may lead to a stub but the empty one and that of a database in memory.
pub proof fn any_file_may_be_a_stub(path: Seq<char>)
    ensures
        may_be_stub(path) <==> path.len() > 0 && path != ":memory:"@,
{
}

/// The file that a connection was opened with is the schema without a name and
/// the one named main, and no other.
pub proof fn the_file_is_the_main_schema(name: Seq<char>)
    ensures
        is_main_schema(None),
        is_main_schema(Some(encode_utf8(name))) <==> name.len() == 0 || name == "main"@,
{
    encode_utf8_decode_utf8(name);
    encode_utf8_valid_utf8(name);
}

/// A callback that ends a script leaves what the statements did, and the
/// connection says that it was aborted.
pub proof fn an_aborted_script_says_so(s: ShimState, db: u64, resp: Response)
    requires
        s.dbs.contains_key(db),
    ensures
        ({
            let t = aborted(s, db, resp);
            &&& t.dbs.remove(db) == s.dbs.remove(db)
            &&& t.stmts == s.stmts
            &&& t.dbs.contains_key(db)
            &&& t.dbs[db].errcode == 4
            &&& t.dbs[db].errmsg == c_bytes("callback aborted"@)
            &&& t.dbs[db].changes == resp.changes
            &&& t.dbs[db].total_changes == resp.total_changes
            &&& t.dbs[db].last_rowid == resp.last_insert_rowid
            &&& t.dbs[db].autocommit == if resp.autocommit {
                1int
            } else {
                0
            }
            &&& t.dbs[db].stmts == s.dbs[db].stmts
        }),
{
    assert(aborted(s, db, resp).dbs.remove(db) =~= s.dbs.remove(db));
}

/// A statement that is dropped is gone, and with it its place in the list of its
/// connection; the null handle is dropped already.
pub proof fn a_dropped_statement_is_gone(s: ShimState, stmt: u64)
    requires
        s.wf(),
    ensures
        match s.finalized(stmt).1 {
            Routed::Forward => stmt != 0 && !s.stmts.contains_key(stmt) && s.finalized(stmt).0 == s,
            Routed::Proxied { v } => if stmt == 0 {
                v is None && s.finalized(stmt).0 == s
            } else {
                let db = s.stmts[stmt].db;
                &&& s.stmts.contains_key(stmt)
                &&& s.finalized(stmt).0.stmts == s.stmts.remove(stmt)
                &&& v is Some ==> v == Some(db) && s.dbs[db].closed
                &&& s.finalized(stmt).0.dbs.contains_key(db) ==> !s.finalized(
                    stmt,
                ).0.dbs[db].stmts.contains(stmt)
            },
        },
{
    if stmt != 0 && s.stmts.contains_key(stmt) {
        let list = s.dbs[s.stmts[stmt].db].stmts;
        assert(s.dbs.contains_key(s.stmts[stmt].db));
        filter_keeps_others(list, stmt);
    }
}

/// The codes and the types are those of SQLite.
pub proof fn the_codes_are_those_of_sqlite()
    ensures
        SQLITE_OK == 0 && SQLITE_ERROR == 1 && SQLITE_ABORT == 4 && SQLITE_BUSY == 5,
        SQLITE_CANTOPEN == 14 && SQLITE_TOOBIG == 18 && SQLITE_MISUSE == 21,
        SQLITE_ROW == 100 && SQLITE_DONE == 101,
        SQLITE_INTEGER == 1 && SQLITE_FLOAT == 2 && SQLITE_TEXT == 3 && SQLITE_BLOB == 4
            && SQLITE_NULL == 5,
{
}

/// A blob of zeros has at most half the bytes that a message may have, so that it
/// can be sent in its encoded form.
pub proof fn a_blob_of_zeros_can_be_sent(n: i32)
    requires
        0 <= n <= MAX_ZEROBLOB,
    ensures
        2 * n <= MAX_BODY,
        MAX_ZEROBLOB * 2 == MAX_BODY,
        encoded(zeros(n as nat)).len() <= MAX_BODY,
{
    encoded_length(zeros(n as nat));
}

/// A limit is the same for every number that means it, and every number without a
/// meaning has the last one.
pub proof fn limits_are_fixed(id: i32)
    ensures
        limit(id) == match id {
            0 => 1_000_000_000i32,
            1 => 1_000_000_000,
            2 => 2000,
            3 => 1000,
            4 => 500,
            5 => 25_000,
            6 => 100,
            7 => 10,
            8 => 50_000,
            9 => 32_766,
            10 => 1000,
            _ => 1_000_000,
        },
{
}

/// What cannot be done is named.
pub proof fn what_cannot_be_done_is_named(what: Unsupported)
    ensures
        refusal(what) == "sqlite-broker does not "@ + match what {
            Unsupported::LoadExtension => "load extensions"@,
            Unsupported::Blob => "support incremental blobs"@,
            Unsupported::Backup => "support backup"@,
            Unsupported::Deserialize => "support deserialize"@,
        },
{
    reveal_strlit("sqlite-broker does not ");
    reveal_strlit("sqlite-broker does not load extensions");
    reveal_strlit("sqlite-broker does not support incremental blobs");
    reveal_strlit("sqlite-broker does not support backup");
    reveal_strlit("sqlite-broker does not support deserialize");
    reveal_strlit("load extensions");
    reveal_strlit("support incremental blobs");
    reveal_strlit("support backup");
    reveal_strlit("support deserialize");
    assert(refusal(what) =~= "sqlite-broker does not "@ + match what {
        Unsupported::LoadExtension => "load extensions"@,
        Unsupported::Blob => "support incremental blobs"@,
        Unsupported::Backup => "support backup"@,
        Unsupported::Deserialize => "support deserialize"@,
    });
}

} // verus!
