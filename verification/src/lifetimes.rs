//! What holds of proxied connections and statements over several calls.
use vstd::prelude::*;
use vstd::utf8::encode_utf8;

use crate::base64::base64_reads_back;
use crate::protocol::{blob_of, Cell, Param, Response};
use crate::proxy::SQLITE_BUSY;
use crate::ctext::c_bytes;
use crate::runner::{
    first_zero, fits_c, is_bind_of, is_cell_of, BindValue, Fetched, SQLITE_DONE, SQLITE_OK, SQLITE_ROW,
};
use crate::shim::{Closed, Routed, ShimState};
use crate::statement::{cell_blob, cell_text, row_blobs, row_texts, upserted, StmtState};

verus! {

/// A connection that still has statements is not closed by `sqlite3_close`, and
/// nothing changes.
pub proof fn closing_a_busy_connection_changes_nothing(s: ShimState, db: u64)
    requires
        s.wf(),
        s.dbs.contains_key(db),
        s.dbs[db].stmts.len() > 0,
    ensures
        s.closed(db, false) == (
            s,
            Routed::Proxied { v: Closed { rc: SQLITE_BUSY, shutdown: false } },
        ),
{
}

/// A connection that was closed with statements left goes with the last of
/// them, and its session with the broker is ended then.
pub proof fn the_last_statement_takes_a_closed_connection_along(s: ShimState, db: u64, stmt: u64)
    requires
        s.wf(),
        s.dbs.contains_key(db),
        s.dbs[db].stmts == seq![stmt],
    ensures
        ({
            let (zombie, closed) = s.closed(db, true);
            let (after, ended) = zombie.finalized(stmt);
            &&& closed == (Routed::Proxied { v: Closed { rc: SQLITE_OK, shutdown: false } })
            &&& zombie.dbs.contains_key(db)
            &&& zombie.stmts == s.stmts
            &&& ended == (Routed::Proxied { v: Some(db) })
            &&& after.dbs == s.dbs.remove(db)
            &&& after.stmts == s.stmts.remove(stmt)
        }),
{
    reveal(Seq::filter);
    assert(s.dbs[db].stmts[0] == stmt);
    let zombie = s.closed(db, true).0;
    assert(zombie.dbs[db].stmts == seq![stmt]);
    let one = seq![stmt];
    assert(one.drop_last() == Seq::<u64>::empty());
    assert(crate::proxy::without(Seq::empty(), stmt) == Seq::<u64>::empty());
    assert(crate::proxy::without(one, stmt) == Seq::<u64>::empty());
    let after = zombie.finalized(stmt).0;
    assert(after.dbs =~= s.dbs.remove(db));
}

/// The session with the broker is ended exactly when the connection leaves the
/// table, whether it was closed or lost its last statement.
pub proof fn a_session_ends_with_its_connection(s: ShimState, db: u64, v2: bool, stmt: u64)
    requires
        s.wf(),
        s.dbs.contains_key(db),
    ensures
        (s.closed(db, v2).1 matches Routed::Proxied { v } && v.shutdown) <==> !s.closed(
            db,
            v2,
        ).0.dbs.contains_key(db),
        s.finalized(stmt).1 == (Routed::Proxied { v: Some(db) }) <==> !s.finalized(
            stmt,
        ).0.dbs.contains_key(db),
{
}

/// Closing a connection and dropping a statement leave all other connections,
/// and their statements, as they were.
pub proof fn other_connections_are_left_alone(
    s: ShimState,
    db: u64,
    v2: bool,
    stmt: u64,
    other: u64,
)
    requires
        s.wf(),
        s.dbs.contains_key(other),
    ensures
        other != db ==> {
            &&& s.closed(db, v2).0.dbs.contains_key(other)
            &&& s.closed(db, v2).0.dbs[other] == s.dbs[other]
        },
        s.closed(db, v2).0.stmts == s.stmts,
        s.stmts.contains_key(stmt) && other != s.stmts[stmt].db ==> {
            &&& s.finalized(stmt).0.dbs.contains_key(other)
            &&& s.finalized(stmt).0.dbs[other] == s.dbs[other]
        },
        forall|x: u64|
            x != stmt && s.stmts.contains_key(x) ==> {
                &&& #[trigger] s.finalized(stmt).0.stmts.contains_key(x)
                &&& s.finalized(stmt).0.stmts[x] == s.stmts[x]
            },
{
}

/// A statement after some more steps, and the code of the last.
pub open spec fn after_steps(s: StmtState, n: nat) -> StmtState
    decreases n,
{
    if n == 0 {
        s
    } else {
        after_steps(s, (n - 1) as nat).advanced().0
    }
}

/// The steps of a statement that ran hand out its rows in order, each once, and
/// then say that there are no more.
pub proof fn steps_hand_out_the_rows_in_order(s: StmtState, resp: Response, n: nat)
    requires
        s.wf(),
        !s.started,
    ensures
        ({
            let t = after_steps(s.ran(resp), n);
            let rows = resp.rows@;
            &&& t.rows == rows
            &&& t.params == s.params
            &&& !t.failed
            &&& n <= rows.len() ==> t.pos == n
            &&& n > rows.len() ==> t.pos == rows.len() && t.last_step == SQLITE_DONE
            &&& 0 < n <= rows.len() ==> {
                &&& t.last_step == SQLITE_ROW
                &&& t.texts == row_texts(rows[n - 1]@)
                &&& t.blobs == row_blobs(rows[n - 1]@)
            }
            &&& t.advanced().1 == if n < rows.len() {
                SQLITE_ROW
            } else {
                SQLITE_DONE
            }
        }),
    decreases n,
{
    assert(resp.rows.len() == resp.rows@.len());
    if n > 0 {
        steps_hand_out_the_rows_in_order(s, resp, (n - 1) as nat);
    }
}

/// A statement that was reset can run again with the values bound before, and
/// nothing is left of the rows of the first run.
pub proof fn a_reset_keeps_the_bindings(s: StmtState, resp: Response)
    requires
        s.wf(),
    ensures
        ({
            let t = s.reset();
            &&& !t.started
            &&& t.params == s.params
            &&& t.sql == s.sql
            &&& t.rows.len() == 0
            &&& t.cell_at(0) is None
            &&& t.ran(resp).rows == resp.rows@
        }),
{
}

/// The value bound to an index.
pub open spec fn value_at(params: Seq<Param>, index: i32) -> Option<Cell>
    decreases params.len(),
{
    if params.len() == 0 {
        None
    } else if params[0].index == index {
        Some(params[0].value)
    } else {
        value_at(params.drop_first(), index)
    }
}

/// Whether no index has two values.
pub open spec fn one_value_each(params: Seq<Param>) -> bool {
    forall|i: int, j: int|
        0 <= i < j < params.len() ==> (#[trigger] params[i]).index != (#[trigger] params[j]).index
}

/// Binding a value to an index replaces the one before and leaves those of the
/// other indexes; no index comes to have two.
pub proof fn binding_replaces_one_value(params: Seq<Param>, index: i32, value: Cell, other: i32)
    ensures
        value_at(upserted(params, index, value), index) == Some(value),
        other != index ==> value_at(upserted(params, index, value), other) == value_at(
            params,
            other,
        ),
        one_value_each(params) ==> one_value_each(upserted(params, index, value)),
        upserted(params, index, value).len() == if value_at(params, index) is None {
            params.len() + 1
        } else {
            params.len()
        },
    decreases params.len(),
{
    let new = upserted(params, index, value);
    if params.len() == 0 {
        assert(value_at(new.drop_first(), other) is None);
    } else {
        let rest = params.drop_first();
        if params[0].index == index {
            assert(new.drop_first() == rest);
            if one_value_each(params) {
                assert forall|i: int, j: int| 0 <= i < j < new.len() implies (
                #[trigger] new[i]).index != (#[trigger] new[j]).index by {
                    assert(params[i].index != params[j].index);
                }
            }
        } else {
            binding_replaces_one_value(rest, index, value, other);
            let tail = upserted(rest, index, value);
            assert(new.drop_first() == tail);
            if one_value_each(params) {
                assert forall|i: int, j: int| 0 <= i < j < rest.len() implies (
                #[trigger] rest[i]).index != (#[trigger] rest[j]).index by {
                    assert(params[i + 1].index != params[j + 1].index);
                }
                assert forall|i: int, j: int| 0 <= i < j < new.len() implies (
                #[trigger] new[i]).index != (#[trigger] new[j]).index by {
                    if i == 0 {
                        upserted_indexes(rest, index, value, j - 1);
                        assert(new[j] == tail[j - 1]);
                        if tail[j - 1].index != index {
                            let k = choose|k: int|
                                0 <= k < rest.len() && rest[k].index == tail[j - 1].index;
                            assert(params[0].index != params[k + 1].index);
                        }
                    } else {
                        assert(new[i] == tail[i - 1]);
                        assert(new[j] == tail[j - 1]);
                    }
                }
            }
        }
    }
}

proof fn upserted_indexes(params: Seq<Param>, index: i32, value: Cell, j: int)
    requires
        0 <= j < upserted(params, index, value).len(),
    ensures
        ({
            let x = upserted(params, index, value)[j].index;
            x == index || exists|k: int| 0 <= k < params.len() && (#[trigger] params[k]).index == x
        }),
    decreases params.len(),
{
    let new = upserted(params, index, value);
    if params.len() > 0 && params[0].index != index {
        if j == 0 {
            assert(new[0] == params[0]);
        } else {
            let rest = params.drop_first();
            upserted_indexes(rest, index, value, j - 1);
            assert(new[j] == upserted(rest, index, value)[j - 1]);
            if new[j].index != index {
                let k = choose|k: int|
                    0 <= k < rest.len() && (#[trigger] rest[k]).index == new[j].index;
                assert(params[k + 1] == rest[k]);
            }
        }
    } else if params.len() > 0 && j > 0 {
        assert(new[j] == params[j]);
    }
}

/// A blob that is bound is the one that the broker reads, and reading it back
/// gives the same bytes.
pub proof fn a_bound_blob_keeps_its_bytes(cell: Cell, bytes: Seq<u8>)
    requires
        crate::api::is_blob_value(cell, bytes),
    ensures
        blob_of(cell) == Some(bytes),
        cell_blob(cell) == bytes,
{
    base64_reads_back(bytes);
}

/// A text that is bound is the one that the broker binds, and where the broker
/// reads it again the program gets the same bytes.
pub proof fn a_bound_text_keeps_its_bytes(text: String)
    requires
        fits_c(text@),
    ensures
        is_bind_of(Cell::Text { v: text }, Ok(BindValue::Text { v: text })),
        is_cell_of(Fetched::Text { v: Some(text) }, Cell::Text { v: text }),
        cell_text(Cell::Text { v: text }) == encode_utf8(text@),
{
    let bytes = encode_utf8(text@);
    no_zero_before(bytes);
    assert(c_bytes(text@) =~= bytes);
}

proof fn no_zero_before(bytes: Seq<u8>)
    ensures
        0 <= first_zero(bytes) <= bytes.len(),
        forall|j: int| 0 <= j < first_zero(bytes) ==> #[trigger] bytes[j] != 0,
    decreases bytes.len(),
{
    if bytes.len() > 0 && bytes[0] != 0 {
        let rest = bytes.drop_first();
        no_zero_before(rest);
        assert forall|j: int| 0 <= j < first_zero(bytes) implies #[trigger] bytes[j] != 0 by {
            if j > 0 {
                assert(rest[j - 1] == bytes[j]);
            }
        }
    }
}

/// An integer that is bound is the one that the broker binds, and where the
/// broker reads it again the program gets the same number.
pub proof fn a_bound_integer_keeps_its_value(n: i64, s: StmtState, index: i32)
    requires
        s.cell_at(index) == Some(Cell::Int { v: n }),
    ensures
        is_bind_of(Cell::Int { v: n }, Ok(BindValue::Int { v: n })),
        is_cell_of(Fetched::Int { v: n }, Cell::Int { v: n }),
        s.column_int64(index) == n,
{
}

} // verus!
