//! The calls of the SQLite interface that need no answer of the broker: values
//! to bind, columns to read, settings.
use vstd::prelude::*;
use vstd::utf8::{decode_utf8, valid_utf8};

use crate::base64::{encode_base64, encoded};
use crate::ctext::{is_sql_text, sql_from, sql_text, CText};
use crate::protocol::{Cell, Real};
use crate::proxy::{SQLITE_ERROR, SQLITE_MISUSE, SQLITE_TOOBIG};
use crate::runner::{SQLITE_OK, SQLITE_ROW};
use crate::shim::{replaced_db_keeps_wf, replaced_stmt_keeps_wf, Routed, Shim, ShimState};
use crate::statement::{
    at_or_none, index_named, is_double_of, limit, limit_value, maybe_ref, only_reads, reads_only,
    ColumnBytes, Double, StmtState,
};
use crate::text::{copy_text, same_text};
use crate::utf8::text_of_bytes;

verus! {

// ------------------------------------------------------------------- bind

impl ShimState {
    /// What binding a value comes to. A statement that was run takes none until
    /// it is reset, and indexes begin at 1.
    pub open spec fn bind_result(self, stmt: u64, index: i32) -> Routed<i32> {
        if !self.stmts.contains_key(stmt) {
            Routed::Forward
        } else if self.stmts[stmt].started || index <= 0 {
            Routed::Proxied { v: SQLITE_MISUSE }
        } else {
            Routed::Proxied { v: SQLITE_OK }
        }
    }

    /// The state after a value was bound, where it may be.
    pub open spec fn bound(self, stmt: u64, index: i32, value: Cell) -> ShimState {
        if self.bind_result(stmt, index) == (Routed::Proxied { v: SQLITE_OK }) {
            self.with_stmt(stmt, self.stmts[stmt].bound(index, value))
        } else {
            self
        }
    }
}

/// What binding a value comes to.
#[derive(Debug, Clone, Copy)]
pub struct Bound {
    pub rc: i32,
    /// Whether the library is done with the value, so that a destructor that
    /// came with it is to be called.
    pub release: bool,
}

/// Whether a destructor that came with a value is one to call. Two values stand
/// for none, and where there is no value there is nothing to release.
pub fn release_destructor(destructor: u64, value: u64) -> (r: bool)
    ensures
        r == (destructor != 0 && destructor != u64::MAX && value != 0),
{
    destructor != 0 && destructor != u64::MAX && value != 0
}

fn bind(shim: &mut Shim, stmt: u64, index: i32, value: Cell) -> (r: Routed<i32>)
    requires
        old(shim)@.wf(),
    ensures
        r == old(shim)@.bind_result(stmt, index),
        final(shim)@ == old(shim)@.bound(stmt, index, value),
        final(shim)@.wf(),
{
    if !shim.is_stmt(stmt) {
        return Routed::Forward;
    }
    let ghost s0 = shim@;
    let mut s = shim.take_stmt(stmt);
    if s.started() || index <= 0 {
        shim.put_stmt(stmt, s);
        assert(shim@ =~= s0);
        return Routed::Proxied { v: SQLITE_MISUSE };
    }
    s.upsert_param(index, value);
    shim.put_stmt(stmt, s);
    proof {
        assert(shim@ =~= s0.with_stmt(stmt, s0.stmts[stmt].bound(index, value)));
        replaced_stmt_keeps_wf(s0, stmt, s0.stmts[stmt].bound(index, value));
    }
    Routed::Proxied { v: SQLITE_OK }
}

/// Binds an integer.
pub fn sqlite3_bind_int64(shim: &mut Shim, stmt: u64, index: i32, value: i64) -> (r: Routed<i32>)
    requires
        old(shim)@.wf(),
    ensures
        r == old(shim)@.bind_result(stmt, index),
        final(shim)@ == old(shim)@.bound(stmt, index, Cell::Int { v: value }),
        final(shim)@.wf(),
{
    bind(shim, stmt, index, Cell::Int { v: value })
}

/// Binds an integer.
pub fn sqlite3_bind_int(shim: &mut Shim, stmt: u64, index: i32, value: i32) -> (r: Routed<i32>)
    requires
        old(shim)@.wf(),
    ensures
        r == old(shim)@.bind_result(stmt, index),
        final(shim)@ == old(shim)@.bound(stmt, index, Cell::Int { v: value as i64 }),
        final(shim)@.wf(),
{
    bind(shim, stmt, index, Cell::Int { v: value as i64 })
}

/// Binds nothing.
pub fn sqlite3_bind_null(shim: &mut Shim, stmt: u64, index: i32) -> (r: Routed<i32>)
    requires
        old(shim)@.wf(),
    ensures
        r == old(shim)@.bind_result(stmt, index),
        final(shim)@ == old(shim)@.bound(stmt, index, Cell::Null),
        final(shim)@.wf(),
{
    bind(shim, stmt, index, Cell::Null)
}

/// Binds a floating-point number.
pub fn sqlite3_bind_double(shim: &mut Shim, stmt: u64, index: i32, value: Real) -> (r: Routed<i32>)
    requires
        old(shim)@.wf(),
    ensures
        r == old(shim)@.bind_result(stmt, index),
        final(shim)@ == old(shim)@.bound(stmt, index, Cell::Real { v: value }),
        final(shim)@.wf(),
{
    bind(shim, stmt, index, Cell::Real { v: value })
}

/// Whether the cell holds the text that a program handed over.
pub open spec fn is_text_value(cell: Cell, value: Option<Seq<u8>>) -> bool {
    match value {
        None => cell == Cell::Null,
        Some(bytes) => cell matches Cell::Text { v } && is_sql_text(Some(bytes), v@),
    }
}

/// What stands in bytes that may be missing.
pub open spec fn maybe_bytes(bytes: Option<&[u8]>) -> Option<Seq<u8>> {
    match bytes {
        Some(b) => Some(b@),
        None => None,
    }
}

/// Binds text; without any, nothing.
pub fn sqlite3_bind_text(
    shim: &mut Shim,
    stmt: u64,
    index: i32,
    value: Option<&[u8]>,
) -> (r: Routed<Bound>)
    requires
        old(shim)@.wf(),
    ensures
        is_bound_as(r, old(shim)@.bind_result(stmt, index)),
        exists|cell: Cell|
            is_text_value(cell, maybe_bytes(value)) && final(shim)@ == #[trigger] old(shim)@.bound(stmt, index, cell),
        final(shim)@.wf(),
{
    let cell: Cell = match value {
        None => Cell::Null,
        Some(_) => Cell::Text { v: sql_from(value) },
    };
    assert(is_text_value(cell, maybe_bytes(value)));
    match bind(shim, stmt, index, cell) {
        Routed::Forward => Routed::Forward,
        Routed::Proxied { v } => Routed::Proxied { v: Bound { rc: v, release: v == SQLITE_OK } },
    }
}

/// Whether the result has this code, and the value is released where it was
/// taken.
pub open spec fn is_bound_as(r: Routed<Bound>, rc: Routed<i32>) -> bool {
    match rc {
        Routed::Forward => r is Forward,
        Routed::Proxied { v } => r == (Routed::Proxied {
            v: Bound { rc: v, release: v == SQLITE_OK },
        }),
    }
}

/// The bytes of a blob that a program hands over.
pub open spec fn blob_value(value: Option<Seq<u8>>, n: i32) -> Seq<u8> {
    match value {
        Some(bytes) if n != 0 => bytes,
        _ => seq![],
    }
}

/// Whether the cell holds these bytes.
pub open spec fn is_blob_value(cell: Cell, bytes: Seq<u8>) -> bool {
    cell matches Cell::Blob { v } && v@ == encoded(bytes)
}

/// Binds a blob of `n` bytes.
pub fn sqlite3_bind_blob(
    shim: &mut Shim,
    stmt: u64,
    index: i32,
    value: Option<&[u8]>,
    n: i32,
) -> (r: Routed<Bound>)
    requires
        old(shim)@.wf(),
        n > 0 && value is Some ==> value->0@.len() == n,
    ensures
        ({
            let s = old(shim)@;
            if s.bind_result(stmt, index) != (Routed::Proxied { v: SQLITE_OK }) {
                is_bound_as(r, s.bind_result(stmt, index)) && final(shim)@ == s
            } else if value is None && n > 0 {
                r == (Routed::Proxied { v: Bound { rc: SQLITE_MISUSE, release: false } }) && final(shim)@ == s
            } else if n < 0 {
                r == (Routed::Proxied { v: Bound { rc: SQLITE_TOOBIG, release: true } }) && final(shim)@ == s
            } else {
                &&& r == (Routed::Proxied { v: Bound { rc: SQLITE_OK, release: true } })
                &&& exists|cell: Cell|
                    is_blob_value(cell, blob_value(maybe_bytes(value), n)) && final(shim)@
                        == #[trigger] s.bound(stmt, index, cell)
            }
        }),
        final(shim)@.wf(),
{
    let ready = match shim.as_stmt(stmt) {
        None => {
            return Routed::Forward;
        },
        Some(s) => !s.started() && index > 0,
    };
    if !ready || (value.is_none() && n > 0) {
        return Routed::Proxied { v: Bound { rc: SQLITE_MISUSE, release: false } };
    }
    if n < 0 {
        return Routed::Proxied { v: Bound { rc: SQLITE_TOOBIG, release: true } };
    }
    let none: Vec<u8> = Vec::new();
    assert(none@ == Seq::<u8>::empty());
    let text: String = match value {
        Some(bytes) => if n == 0 {
            encode_base64(none.as_slice())
        } else {
            encode_base64(bytes)
        },
        None => encode_base64(none.as_slice()),
    };
    let cell = Cell::Blob { v: text };
    assert(is_blob_value(cell, blob_value(maybe_bytes(value), n)));
    let _ = bind(shim, stmt, index, cell);
    Routed::Proxied { v: Bound { rc: SQLITE_OK, release: true } }
}

/// The most bytes that a blob of zeros may have: half of what a message may.
pub const MAX_ZEROBLOB: i32 = 8388608;

/// Zeros.
pub open spec fn zeros(n: nat) -> Seq<u8> {
    Seq::new(n, |i: int| 0u8)
}

fn zero_bytes(n: usize) -> (out: Vec<u8>)
    ensures
        out@ == zeros(n as nat),
{
    let mut out: Vec<u8> = Vec::new();
    while out.len() < n
        invariant
            out.len() <= n,
            out@ == zeros(out@.len()),
        decreases n - out.len(),
    {
        let ghost before = out@;
        out.push(0);
        assert(out@ == zeros(before.len()).push(0u8));
        assert(zeros(before.len()).push(0u8) == zeros(before.len() + 1));
    }
    out
}

/// Binds a blob of `n` zeros.
pub fn sqlite3_bind_zeroblob(shim: &mut Shim, stmt: u64, index: i32, n: i32) -> (r: Routed<i32>)
    requires
        old(shim)@.wf(),
    ensures
        ({
            let s = old(shim)@;
            if s.bind_result(stmt, index) != (Routed::Proxied { v: SQLITE_OK }) {
                r == s.bind_result(stmt, index) && final(shim)@ == s
            } else if n < 0 || n > MAX_ZEROBLOB {
                r == (Routed::Proxied { v: SQLITE_TOOBIG }) && final(shim)@ == s
            } else {
                &&& r == (Routed::Proxied { v: SQLITE_OK })
                &&& exists|cell: Cell|
                    is_blob_value(cell, zeros(n as nat)) && final(shim)@ == #[trigger] s.bound(
                        stmt,
                        index,
                        cell,
                    )
            }
        }),
        final(shim)@.wf(),
{
    let ready = match shim.as_stmt(stmt) {
        None => {
            return Routed::Forward;
        },
        Some(s) => !s.started() && index > 0,
    };
    if !ready {
        return Routed::Proxied { v: SQLITE_MISUSE };
    }
    if n < 0 || n > MAX_ZEROBLOB {
        return Routed::Proxied { v: SQLITE_TOOBIG };
    }
    let cell = Cell::Blob { v: encode_base64(zero_bytes(n as usize).as_slice()) };
    assert(is_blob_value(cell, zeros(n as nat)));
    let _ = bind(shim, stmt, index, cell);
    Routed::Proxied { v: SQLITE_OK }
}

/// Drops all bound values of a statement.
pub fn sqlite3_clear_bindings(shim: &mut Shim, stmt: u64) -> (r: Routed<i32>)
    requires
        old(shim)@.wf(),
    ensures
        ({
            let s = old(shim)@;
            if s.stmts.contains_key(stmt) {
                &&& r == (Routed::Proxied { v: SQLITE_OK })
                &&& final(shim)@ == s.with_stmt(stmt, StmtState { params: seq![], ..s.stmts[stmt] })
            } else {
                r == Routed::<i32>::Forward && final(shim)@ == s
            }
        }),
        final(shim)@.wf(),
{
    if !shim.is_stmt(stmt) {
        return Routed::Forward;
    }
    let ghost s0 = shim@;
    let mut s = shim.take_stmt(stmt);
    s.clear_params();
    shim.put_stmt(stmt, s);
    proof {
        assert(shim@ =~= s0.with_stmt(stmt, s@));
        replaced_stmt_keeps_wf(s0, stmt, s@);
    }
    Routed::Proxied { v: SQLITE_OK }
}

/// Makes a statement ready to run again.
pub fn sqlite3_reset(shim: &mut Shim, stmt: u64) -> (r: Routed<i32>)
    requires
        old(shim)@.wf(),
    ensures
        ({
            let s = old(shim)@;
            if s.stmts.contains_key(stmt) {
                &&& r == (Routed::Proxied { v: SQLITE_OK })
                &&& final(shim)@ == s.with_stmt(stmt, s.stmts[stmt].reset())
            } else {
                r == Routed::<i32>::Forward && final(shim)@ == s
            }
        }),
        final(shim)@.wf(),
{
    if !shim.is_stmt(stmt) {
        return Routed::Forward;
    }
    let ghost s0 = shim@;
    let mut s = shim.take_stmt(stmt);
    s.reset();
    shim.put_stmt(stmt, s);
    proof {
        assert(shim@ =~= s0.with_stmt(stmt, s@));
        replaced_stmt_keeps_wf(s0, stmt, s@);
    }
    Routed::Proxied { v: SQLITE_OK }
}

// ------------------------------------------------------------- statements

impl ShimState {
    /// A result where the statement is a proxied one.
    pub open spec fn of_stmt<T>(self, stmt: u64, v: T) -> Routed<T> {
        if self.stmts.contains_key(stmt) {
            Routed::Proxied { v }
        } else {
            Routed::Forward
        }
    }

    /// A result where the connection is a proxied one.
    pub open spec fn of_db<T>(self, db: u64, v: T) -> Routed<T> {
        if self.dbs.contains_key(db) {
            Routed::Proxied { v }
        } else {
            Routed::Forward
        }
    }
}

/// A text as a result, by what stands in it.
pub open spec fn routed_text(r: Routed<Option<&CText>>) -> Routed<Option<Seq<u8>>> {
    match r {
        Routed::Forward => Routed::Forward,
        Routed::Proxied { v } => Routed::Proxied { v: maybe_ref(v) },
    }
}

/// How many parameters a statement has.
pub fn sqlite3_bind_parameter_count(shim: &Shim, stmt: u64) -> (r: Routed<i32>)
    ensures
        r == shim@.of_stmt(stmt, shim@.stmts[stmt].param_count),
{
    match shim.as_stmt(stmt) {
        Some(s) => Routed::Proxied { v: s.param_count() },
        None => Routed::Forward,
    }
}

/// The name of a parameter.
pub fn sqlite3_bind_parameter_name(shim: &Shim, stmt: u64, index: i32) -> (r: Routed<
    Option<&CText>,
>)
    ensures
        routed_text(r) == shim@.of_stmt(
            stmt,
            at_or_none(shim@.stmts[stmt].param_names, index - 1),
        ),
{
    match shim.as_stmt(stmt) {
        Some(s) => Routed::Proxied { v: s.parameter_name(index) },
        None => Routed::Forward,
    }
}

/// The index of the parameter with a name, or 0.
pub fn sqlite3_bind_parameter_index(shim: &Shim, stmt: u64, name: Option<&[u8]>) -> (r: Routed<i32>)
    ensures
        r == shim@.of_stmt(
            stmt,
            match name {
                None => 0,
                Some(bytes) => index_named(shim@.stmts[stmt].param_names, sql_text(Some(bytes@))),
            },
        ),
{
    match shim.as_stmt(stmt) {
        Some(s) => match name {
            None => Routed::Proxied { v: 0 },
            Some(_) => Routed::Proxied { v: s.param_index(sql_from(name).as_str()) },
        },
        None => Routed::Forward,
    }
}

/// How many columns a statement has.
pub fn sqlite3_column_count(shim: &Shim, stmt: u64) -> (r: Routed<i32>)
    ensures
        r == shim@.of_stmt(stmt, shim@.stmts[stmt].columns.len() as i32),
{
    match shim.as_stmt(stmt) {
        Some(s) => Routed::Proxied { v: s.column_count() },
        None => Routed::Forward,
    }
}

/// The text of a column of the row at hand.
pub fn sqlite3_column_text(shim: &Shim, stmt: u64, i: i32) -> (r: Routed<Option<&CText>>)
    requires
        shim@.wf(),
    ensures
        routed_text(r) == shim@.of_stmt(stmt, shim@.stmts[stmt].column_text(i)),
{
    match shim.as_stmt(stmt) {
        Some(s) => Routed::Proxied { v: s.column_text(i) },
        None => Routed::Forward,
    }
}

/// The name of a column.
pub fn sqlite3_column_name(shim: &Shim, stmt: u64, i: i32) -> (r: Routed<Option<&CText>>)
    ensures
        routed_text(r) == shim@.of_stmt(
            stmt,
            if 0 <= i < shim@.stmts[stmt].columns.len() {
                Some(shim@.stmts[stmt].columns[i as int])
            } else {
                None
            },
        ),
{
    match shim.as_stmt(stmt) {
        Some(s) => Routed::Proxied { v: s.column_name(i) },
        None => Routed::Forward,
    }
}

/// The declared type of a column.
pub fn sqlite3_column_decltype(shim: &Shim, stmt: u64, i: i32) -> (r: Routed<Option<&CText>>)
    ensures
        routed_text(r) == shim@.of_stmt(
            stmt,
            at_or_none(shim@.stmts[stmt].decltypes, i as int),
        ),
{
    match shim.as_stmt(stmt) {
        Some(s) => Routed::Proxied { v: s.column_decltype(i) },
        None => Routed::Forward,
    }
}

/// Where a column comes from: its table, its database or its name there. The
/// broker does not tell.
pub fn column_source(shim: &Shim, stmt: u64) -> (r: Routed<Option<&CText>>)
    ensures
        routed_text(r) == shim@.of_stmt(stmt, None::<Seq<u8>>),
{
    if shim.is_stmt(stmt) {
        Routed::Proxied { v: None }
    } else {
        Routed::Forward
    }
}

/// The type of a column of the row at hand.
pub fn sqlite3_column_type(shim: &Shim, stmt: u64, i: i32) -> (r: Routed<i32>)
    ensures
        r == shim@.of_stmt(stmt, shim@.stmts[stmt].column_type(i)),
{
    match shim.as_stmt(stmt) {
        Some(s) => Routed::Proxied { v: s.column_type(i) },
        None => Routed::Forward,
    }
}

/// A column of the row at hand as an integer.
pub fn sqlite3_column_int64(shim: &Shim, stmt: u64, i: i32) -> (r: Routed<i64>)
    ensures
        r == shim@.of_stmt(stmt, shim@.stmts[stmt].column_int64(i)),
{
    match shim.as_stmt(stmt) {
        Some(s) => Routed::Proxied { v: s.column_int64(i) },
        None => Routed::Forward,
    }
}

/// A column of the row at hand as an integer, cut to its low bits.
pub fn sqlite3_column_int(shim: &Shim, stmt: u64, i: i32) -> (r: Routed<i32>)
    ensures
        r == shim@.of_stmt(stmt, shim@.stmts[stmt].column_int64(i) as i32),
{
    match shim.as_stmt(stmt) {
        Some(s) => Routed::Proxied { v: s.column_int64(i) as i32 },
        None => Routed::Forward,
    }
}

/// A column of the row at hand as a floating-point number.
pub fn sqlite3_column_double(shim: &Shim, stmt: u64, i: i32) -> (r: Routed<Double>)
    ensures
        match r {
            Routed::Forward => !shim@.stmts.contains_key(stmt),
            Routed::Proxied { v } => shim@.stmts.contains_key(stmt) && is_double_of(
                shim@.stmts[stmt].cell_at(i),
                v,
            ),
        },
{
    match shim.as_stmt(stmt) {
        Some(s) => Routed::Proxied { v: s.column_double(i) },
        None => Routed::Forward,
    }
}

/// The length of a column of the row at hand.
pub fn sqlite3_column_bytes(shim: &Shim, stmt: u64, i: i32) -> (r: Routed<i32>)
    requires
        shim@.wf(),
    ensures
        r == shim@.of_stmt(stmt, shim@.stmts[stmt].column_bytes(i)),
{
    match shim.as_stmt(stmt) {
        Some(s) => Routed::Proxied { v: s.column_bytes(i) },
        None => Routed::Forward,
    }
}

/// The bytes of a column of the row at hand.
pub fn sqlite3_column_blob(shim: &Shim, stmt: u64, i: i32) -> (r: Routed<Option<ColumnBytes<'_>>>)
    requires
        shim@.wf(),
    ensures
        match r {
            Routed::Forward => !shim@.stmts.contains_key(stmt),
            Routed::Proxied { v } => shim@.stmts.contains_key(stmt)
                && shim@.stmts[stmt].column_blob(i) == match v {
                Some(b) => Some(b@),
                None => None,
            },
        },
{
    match shim.as_stmt(stmt) {
        Some(s) => Routed::Proxied { v: s.column_blob(i) },
        None => Routed::Forward,
    }
}

/// How many columns the row at hand has.
pub fn sqlite3_data_count(shim: &Shim, stmt: u64) -> (r: Routed<i32>)
    ensures
        r == shim@.of_stmt(
            stmt,
            if shim@.stmts[stmt].last_step == SQLITE_ROW {
                shim@.stmts[stmt].columns.len() as i32
            } else {
                0
            },
        ),
{
    match shim.as_stmt(stmt) {
        Some(s) => if s.has_row() {
            Routed::Proxied { v: s.column_count() }
        } else {
            Routed::Proxied { v: 0 }
        },
        None => Routed::Forward,
    }
}

/// Whether a row of the statement is at hand.
pub fn sqlite3_stmt_busy(shim: &Shim, stmt: u64) -> (r: Routed<i32>)
    ensures
        r == shim@.of_stmt(
            stmt,
            if shim@.stmts[stmt].last_step == SQLITE_ROW {
                1i32
            } else {
                0
            },
        ),
{
    match shim.as_stmt(stmt) {
        Some(s) => if s.has_row() {
            Routed::Proxied { v: 1 }
        } else {
            Routed::Proxied { v: 0 }
        },
        None => Routed::Forward,
    }
}

/// Whether a statement only reads.
pub fn sqlite3_stmt_readonly(shim: &Shim, stmt: u64) -> (r: Routed<i32>)
    ensures
        r == shim@.of_stmt(
            stmt,
            if only_reads(shim@.stmts[stmt].sql) {
                1i32
            } else {
                0
            },
        ),
{
    match shim.as_stmt(stmt) {
        Some(s) => if reads_only(s.sql().as_str()) {
            Routed::Proxied { v: 1 }
        } else {
            Routed::Proxied { v: 0 }
        },
        None => Routed::Forward,
    }
}

/// The connection of a statement.
pub fn sqlite3_db_handle(shim: &Shim, stmt: u64) -> (r: Routed<u64>)
    ensures
        r == shim@.of_stmt(stmt, shim@.stmts[stmt].db),
{
    match shim.as_stmt(stmt) {
        Some(s) => Routed::Proxied { v: s.db() },
        None => Routed::Forward,
    }
}

/// The text of a statement.
pub fn sqlite3_sql(shim: &Shim, stmt: u64) -> (r: Routed<Option<&CText>>)
    ensures
        routed_text(r) == shim@.of_stmt(stmt, Some(shim@.stmts[stmt].sql_c)),
{
    match shim.as_stmt(stmt) {
        Some(s) => Routed::Proxied { v: Some(s.sql_c()) },
        None => Routed::Forward,
    }
}

/// The text of a statement, for the program to keep. Bound values are not put
/// into it.
pub fn sqlite3_expanded_sql(shim: &Shim, stmt: u64) -> (r: Routed<String>)
    ensures
        match r {
            Routed::Forward => !shim@.stmts.contains_key(stmt),
            Routed::Proxied { v } => shim@.stmts.contains_key(stmt) && v@
                == shim@.stmts[stmt].sql,
        },
{
    match shim.as_stmt(stmt) {
        Some(s) => Routed::Proxied { v: s.sql().clone() },
        None => Routed::Forward,
    }
}

/// What follows a handle in a list, or 0.
pub open spec fn following(list: Seq<u64>, handle: u64) -> u64
    decreases list.len(),
{
    if list.len() == 0 {
        0
    } else if list[0] == handle {
        if list.len() > 1 {
            list[1]
        } else {
            0
        }
    } else {
        following(list.drop_first(), handle)
    }
}

/// The statement of a connection that follows another one, or 0. After 0 comes
/// the first.
pub open spec fn next_in(list: Seq<u64>, stmt: u64) -> u64 {
    if stmt == 0 {
        if list.len() > 0 {
            list[0]
        } else {
            0
        }
    } else {
        following(list, stmt)
    }
}

fn next_of(list: &Vec<u64>, stmt: u64) -> (r: u64)
    ensures
        r == next_in(list@, stmt),
{
    if stmt == 0 {
        return if list.len() > 0 {
            list[0]
        } else {
            0
        };
    }
    let mut i: usize = 0;
    assert(list@.skip(0) == list@);
    while i < list.len()
        invariant
            i <= list.len(),
            stmt != 0,
            following(list@.skip(i as int), stmt) == following(list@, stmt),
        decreases list.len() - i,
    {
        if list[i] == stmt {
            return if list.len() - i > 1 {
                list[i + 1]
            } else {
                0
            };
        }
        assert(list@.skip(i as int).drop_first() == list@.skip(i + 1));
        i = i + 1;
    }
    0
}

/// The statement of a connection that follows another one.
pub fn sqlite3_next_stmt(shim: &Shim, db: u64, stmt: u64) -> (r: Routed<u64>)
    ensures
        r == shim@.of_db(db, next_in(shim@.dbs[db].stmts, stmt)),
{
    match shim.as_db(db) {
        Some(d) => Routed::Proxied { v: next_of(d.stmts(), stmt) },
        None => Routed::Forward,
    }
}

// ------------------------------------------------------------ connections

/// How many rows the last statement changed.
pub fn sqlite3_changes(shim: &Shim, db: u64) -> (r: Routed<i32>)
    ensures
        r == shim@.of_db(db, shim@.dbs[db].changes),
{
    match shim.as_db(db) {
        Some(d) => Routed::Proxied { v: d.changes() },
        None => Routed::Forward,
    }
}

/// How many rows all statements changed.
pub fn sqlite3_total_changes(shim: &Shim, db: u64) -> (r: Routed<i32>)
    ensures
        r == shim@.of_db(db, shim@.dbs[db].total_changes),
{
    match shim.as_db(db) {
        Some(d) => Routed::Proxied { v: d.total_changes() },
        None => Routed::Forward,
    }
}

/// The row that was inserted last.
pub fn sqlite3_last_insert_rowid(shim: &Shim, db: u64) -> (r: Routed<i64>)
    ensures
        r == shim@.of_db(db, shim@.dbs[db].last_rowid),
{
    match shim.as_db(db) {
        Some(d) => Routed::Proxied { v: d.last_rowid() },
        None => Routed::Forward,
    }
}

/// What is said of the last call.
pub fn sqlite3_errmsg(shim: &Shim, db: u64) -> (r: Routed<Option<&CText>>)
    ensures
        routed_text(r) == shim@.of_db(db, Some(shim@.dbs[db].errmsg)),
{
    match shim.as_db(db) {
        Some(d) => Routed::Proxied { v: Some(d.errmsg()) },
        None => Routed::Forward,
    }
}

/// The code of the last call.
pub fn sqlite3_errcode(shim: &Shim, db: u64) -> (r: Routed<i32>)
    ensures
        r == shim@.of_db(db, shim@.dbs[db].errcode),
{
    match shim.as_db(db) {
        Some(d) => Routed::Proxied { v: d.errcode() },
        None => Routed::Forward,
    }
}

/// Whether no transaction is open.
pub fn sqlite3_get_autocommit(shim: &Shim, db: u64) -> (r: Routed<i32>)
    ensures
        r == shim@.of_db(db, shim@.dbs[db].autocommit),
{
    match shim.as_db(db) {
        Some(d) => Routed::Proxied { v: d.autocommit() },
        None => Routed::Forward,
    }
}

/// Whether a schema's name is that of the file the connection was opened with.
/// A name that is no text counts as none.
pub open spec fn is_main_schema(name: Option<Seq<u8>>) -> bool {
    match name {
        None => true,
        Some(bytes) => !valid_utf8(bytes) || decode_utf8(bytes).len() == 0 || decode_utf8(bytes)
            == "main"@,
    }
}

/// The path of a schema's file.
pub fn sqlite3_db_filename<'a>(shim: &'a Shim, db: u64, name: Option<&[u8]>) -> (r: Routed<
    Option<&'a CText>,
>)
    ensures
        routed_text(r) == shim@.of_db(
            db,
            if is_main_schema(maybe_bytes(name)) {
                Some(shim@.dbs[db].filename)
            } else {
                None
            },
        ),
{
    match shim.as_db(db) {
        None => Routed::Forward,
        Some(d) => {
            let main = match name {
                None => true,
                Some(bytes) => match text_of_bytes(bytes) {
                    None => true,
                    Some(schema) => schema.unicode_len() == 0 || same_text(schema, "main"),
                },
            };
            if main {
                Routed::Proxied { v: Some(d.filename()) }
            } else {
                Routed::Proxied { v: None }
            }
        },
    }
}

/// A limit of a connection. A proxied one has fixed limits.
pub fn sqlite3_limit(shim: &Shim, db: u64, id: i32) -> (r: Routed<i32>)
    ensures
        r == shim@.of_db(db, limit(id)),
{
    if shim.is_db(db) {
        Routed::Proxied { v: limit_value(id) }
    } else {
        Routed::Forward
    }
}

/// A setting that a proxied connection takes without effect: the broker waits
/// for locks, and functions, collations, hooks and extensions of the program
/// cannot reach it.
pub fn accept_setting(shim: &Shim, db: u64) -> (r: Routed<i32>)
    ensures
        r == shim@.of_db(db, SQLITE_OK),
{
    if shim.is_db(db) {
        Routed::Proxied { v: SQLITE_OK }
    } else {
        Routed::Forward
    }
}

/// A setting with a value. A proxied connection takes it without effect, and
/// reports the value that was asked for.
pub fn sqlite3_db_config(shim: &Shim, db: u64, value: i32) -> (r: Routed<(i32, i32)>)
    ensures
        r == shim@.of_db(db, (SQLITE_OK, value)),
{
    if shim.is_db(db) {
        Routed::Proxied { v: (SQLITE_OK, value) }
    } else {
        Routed::Forward
    }
}

/// Whether a schema can only be read. Those of a proxied connection can be
/// written.
pub fn sqlite3_db_readonly(shim: &Shim, db: u64) -> (r: Routed<i32>)
    ensures
        r == shim@.of_db(db, 0i32),
{
    if shim.is_db(db) {
        Routed::Proxied { v: 0 }
    } else {
        Routed::Forward
    }
}

/// How many bytes a copy of a schema has. Of a proxied connection there is none.
pub fn sqlite3_serialize(shim: &Shim, db: u64) -> (r: Routed<i64>)
    ensures
        r == shim@.of_db(db, 0i64),
{
    if shim.is_db(db) {
        Routed::Proxied { v: 0 }
    } else {
        Routed::Forward
    }
}

/// A feature that a proxied connection does not have.
#[derive(Debug, Clone, Copy)]
pub enum Unsupported {
    LoadExtension,
    Blob,
    Backup,
    Deserialize,
}

/// What is said of a feature that a proxied connection does not have.
pub open spec fn refusal(what: Unsupported) -> Seq<char> {
    match what {
        Unsupported::LoadExtension => "sqlite-broker does not load extensions"@,
        Unsupported::Blob => "sqlite-broker does not support incremental blobs"@,
        Unsupported::Backup => "sqlite-broker does not support backup"@,
        Unsupported::Deserialize => "sqlite-broker does not support deserialize"@,
    }
}

/// Refuses a feature: the connection fails, and the message is given.
pub fn refuse(shim: &mut Shim, db: u64, what: Unsupported) -> (r: Routed<(i32, String)>)
    requires
        old(shim)@.wf(),
    ensures
        ({
            let s = old(shim)@;
            match r {
                Routed::Forward => !s.dbs.contains_key(db) && final(shim)@ == s,
                Routed::Proxied { v } => {
                    &&& s.dbs.contains_key(db)
                    &&& v.0 == SQLITE_ERROR
                    &&& v.1@ == refusal(what)
                    &&& final(shim)@ == s.with_db(db, s.dbs[db].failed(refusal(what)))
                },
            }
        }),
        final(shim)@.wf(),
{
    if !shim.is_db(db) {
        return Routed::Forward;
    }
    let message: String = match what {
        Unsupported::LoadExtension => copy_text("sqlite-broker does not load extensions"),
        Unsupported::Blob => copy_text("sqlite-broker does not support incremental blobs"),
        Unsupported::Backup => copy_text("sqlite-broker does not support backup"),
        Unsupported::Deserialize => copy_text("sqlite-broker does not support deserialize"),
    };
    let ghost s0 = shim@;
    let mut d = shim.take_db(db);
    d.fail(message.as_str());
    shim.put_db(db, d);
    proof {
        assert(shim@ =~= s0.with_db(db, s0.dbs[db].failed(refusal(what))));
        replaced_db_keeps_wf(s0, db, s0.dbs[db].failed(refusal(what)));
    }
    Routed::Proxied { v: (SQLITE_ERROR, message) }
}

/// Refuses a backup to or from a proxied connection. The destination reports
/// it, if it is one.
pub fn sqlite3_backup_init(shim: &mut Shim, dest: u64, source: u64) -> (r: Routed<()>)
    requires
        old(shim)@.wf(),
    ensures
        ({
            let s = old(shim)@;
            let db = if s.dbs.contains_key(dest) {
                dest
            } else {
                source
            };
            match r {
                Routed::Forward => !s.dbs.contains_key(dest) && !s.dbs.contains_key(source)
                    && final(shim)@ == s,
                Routed::Proxied { .. } => {
                    &&& s.dbs.contains_key(db)
                    &&& final(shim)@ == s.with_db(
                        db,
                        s.dbs[db].failed(refusal(Unsupported::Backup)),
                    )
                },
            }
        }),
        final(shim)@.wf(),
{
    let db: u64 = if shim.is_db(dest) {
        dest
    } else {
        source
    };
    match refuse(shim, db, Unsupported::Backup) {
        Routed::Forward => Routed::Forward,
        Routed::Proxied { .. } => Routed::Proxied { v: () },
    }
}

} // verus!
