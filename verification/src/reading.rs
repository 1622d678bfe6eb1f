//! What a program reads from a row: each value with the type and the content that
//! it had in the database.
use vstd::prelude::*;
use vstd::utf8::encode_utf8;

use crate::base64::base64_reads_back;
use crate::ctext::c_bytes;
use crate::number::{decimal_int, signed_value};
use crate::protocol::{Cell, Response};
use crate::runner::{is_bind_of, is_cell_of, BindValue, Fetched};
use crate::statement::{
    cell_blob, first_named, index_named, is_double_of, is_marked, Double, StmtState,
};
use crate::utf8::lossy;

verus! {

/// Whether a value was fetched as one of the type that SQLite gives it.
pub open spec fn is_fetched_as(kind: i32, f: Fetched) -> bool {
    match f {
        Fetched::Int { .. } => kind == 1,
        Fetched::Real { .. } => kind == 2,
        Fetched::Text { v } => kind == 3 && v is Some,
        Fetched::Blob { .. } => kind == 4,
        Fetched::Null => kind == 5,
    }
}

/// A column has the type that SQLite gave the value, and its content: the row
/// that a step hands out is read by the program as it was fetched.
pub proof fn a_column_is_what_was_fetched(s: StmtState, index: i32, kind: i32, f: Fetched, d: Double)
    requires
        s.wf(),
        !s.failed,
        s.advanced().1 == 100,
        s.pos < s.rows.len() <= usize::MAX,
        0 <= index < s.rows[s.pos as int]@.len(),
        is_fetched_as(kind, f),
        is_cell_of(f, s.rows[s.pos as int]@[index as int]),
        is_double_of(s.advanced().0.cell_at(index), d),
    ensures
        ({
            let t = s.advanced().0;
            &&& t.column_type(index) == kind
            &&& match f {
                Fetched::Null => {
                    &&& t.column_text(index) is None
                    &&& t.column_blob(index) is None
                    &&& t.column_bytes(index) == 0
                    &&& t.column_int64(index) == 0
                    &&& d == Double::Zero
                },
                Fetched::Int { v } => {
                    &&& t.column_text(index) == Some(c_bytes(decimal_int(v as int)))
                    &&& t.column_blob(index) == Some(c_bytes(decimal_int(v as int)))
                    &&& t.column_bytes(index) == c_bytes(decimal_int(v as int)).len() as i32
                    &&& t.column_int64(index) == v
                    &&& d == (Double::Int { v })
                },
                Fetched::Real { v } => {
                    &&& t.column_text(index) == Some(c_bytes(v.text@))
                    &&& t.column_blob(index) == Some(c_bytes(v.text@))
                    &&& t.column_bytes(index) == c_bytes(v.text@).len() as i32
                    &&& t.column_int64(index) == v.truncated
                    &&& d == (Double::Bits { v: v.bits })
                },
                Fetched::Text { v } => {
                    &&& t.column_text(index) == Some(c_bytes(v->0@))
                    &&& t.column_blob(index) == Some(c_bytes(v->0@))
                    &&& t.column_bytes(index) == c_bytes(v->0@).len() as i32
                    &&& t.column_int64(index) == match signed_value(
                        v->0@,
                        i64::MIN as int,
                        i64::MAX as int,
                    ) {
                        Some(n) => n,
                        None => 0,
                    }
                    &&& d == (Double::Text { v: v->0 })
                },
                Fetched::Blob { v } => {
                    &&& t.column_text(index) == Some(c_bytes(lossy(v@)))
                    &&& t.column_blob(index) == if v@.len() == 0 {
                        None
                    } else {
                        Some(v@)
                    }
                    &&& t.column_bytes(index) == v@.len() as i32
                    &&& t.column_int64(index) == 0
                    &&& d == Double::Zero
                },
            }
        }),
{
    let cell = s.rows[s.pos as int]@[index as int];
    assert(s.advanced().0.cell_at(index) == Some(cell));
    if let Fetched::Blob { v } = f {
        base64_reads_back(v@);
        assert(cell_blob(cell) == v@);
    }
    if let Fetched::Text { v } = f {
        crate::number::signed_value_is_in_range(v->0@, i64::MIN as int, i64::MAX as int);
    }
}

/// Whether nothing can be read from the column.
pub open spec fn reads_nothing(s: StmtState, index: i32) -> bool {
    &&& s.column_type(index) == 5
    &&& s.column_text(index) is None
    &&& s.column_blob(index) is None
    &&& s.column_bytes(index) == 0
    &&& s.column_int64(index) == 0
    &&& forall|d: Double| #[trigger] is_double_of(s.cell_at(index), d) ==> d == Double::Zero
}

/// Without a row at hand nothing can be read: neither before the first step, nor
/// after the last, nor after a reset, nor behind the last column of a row.
pub proof fn without_a_row_nothing_is_read(s: StmtState, sql: Seq<char>, resp: Response, index: i32)
    requires
        s.wf(),
        s.rows.len() <= usize::MAX,
        !s.failed,
    ensures
        reads_nothing(StmtState::prepared(s.db, sql, resp), index),
        reads_nothing(s.reset(), index),
        reads_nothing(s.reset().ran(resp), index),
        s.advanced().1 != 100 ==> reads_nothing(s.advanced().0, index),
        s.advanced().1 == 100 && !(0 <= index < s.rows[s.pos as int]@.len()) ==> reads_nothing(
            s.advanced().0,
            index,
        ),
{
}

/// A value is bound as it was sent.
pub proof fn a_value_is_bound_as_it_was_sent(cell: Cell, value: BindValue)
    requires
        is_bind_of(cell, Ok(value)),
    ensures
        match value {
            BindValue::Null => cell == Cell::Null,
            BindValue::Int { v } => cell == (Cell::Int { v }),
            BindValue::Real { bits } => cell matches Cell::Real { v } && v.bits == bits,
            BindValue::Text { v } => cell == (Cell::Text { v }),
            BindValue::Blob { v } => cell is Blob && cell_blob(cell) == v@,
        },
        cell matches Cell::Blob { v: t } ==> forall|bytes: Seq<u8>|
            encode_utf8(t@) == encode_utf8(#[trigger] crate::base64::encoded(bytes)) ==> (value
                matches BindValue::Blob { v } && v@ == bytes),
{
    if cell is Blob {
        assert forall|bytes: Seq<u8>|
            encode_utf8(cell->Blob_v@) == encode_utf8(#[trigger] crate::base64::encoded(bytes)) implies (
        value matches BindValue::Blob { v } && v@ == bytes) by {
            base64_reads_back(bytes);
        }
    }
}

/// The index of a parameter is where its name stands first; a name without a mark
/// also means the parameter with a colon before it.
pub proof fn a_parameter_is_found_by_its_name(
    names: Seq<Option<Seq<u8>>>,
    name: Seq<char>,
    i: int,
)
    requires
        0 <= i < names.len() < i32::MAX,
        forall|j: int| 0 <= j < i ==> #[trigger] names[j] != names[i],
    ensures
        names[i] == Some(encode_utf8(name)) ==> index_named(names, name) == i + 1,
        names[i] == Some(encode_utf8(":"@ + name)) && !is_marked(name) && !names.contains(
            Some(encode_utf8(name)),
        ) ==> index_named(names, name) == i + 1,
{
    first_is(names, i);
    if !names.contains(Some(encode_utf8(name))) {
        first_is_none(names, encode_utf8(name));
    }
}

/// A name that no parameter has, with or without a mark, has no index.
pub proof fn an_unknown_parameter_is_not_found(names: Seq<Option<Seq<u8>>>, name: Seq<char>)
    requires
        !names.contains(Some(encode_utf8(name))),
        is_marked(name) || (!names.contains(Some(encode_utf8(":"@ + name))) && !names.contains(
            Some(encode_utf8("@"@ + name)),
        ) && !names.contains(Some(encode_utf8("$"@ + name)))),
    ensures
        index_named(names, name) == 0,
{
    first_is_none(names, encode_utf8(name));
    if !is_marked(name) {
        first_is_none(names, encode_utf8(":"@ + name));
        first_is_none(names, encode_utf8("@"@ + name));
        first_is_none(names, encode_utf8("$"@ + name));
    }
}

proof fn first_is(names: Seq<Option<Seq<u8>>>, i: int)
    requires
        0 <= i < names.len(),
        forall|j: int| 0 <= j < i ==> #[trigger] names[j] != names[i],
    ensures
        names[i] matches Some(name) ==> first_named(names, name) == i,
    decreases i,
{
    if i > 0 {
        assert(names[0] != names[i]);
        let rest = names.drop_first();
        assert forall|j: int| 0 <= j < i - 1 implies #[trigger] rest[j] != rest[i - 1] by {
            assert(names[j + 1] != names[i]);
        }
        first_is(rest, i - 1);
    }
}

proof fn first_is_none(names: Seq<Option<Seq<u8>>>, name: Seq<u8>)
    requires
        !names.contains(Some(name)),
    ensures
        first_named(names, name) == names.len(),
    decreases names.len(),
{
    if names.len() > 0 {
        assert(names[0] != Some(name));
        let rest = names.drop_first();
        assert forall|j: int| 0 <= j < rest.len() implies #[trigger] rest[j] != Some(name) by {
            assert(names[j + 1] == rest[j]);
        }
        first_is_none(rest, name);
    }
}

/// A text reaches a C program byte for byte, with a space in place of a zero.
pub proof fn a_text_reaches_the_program(text: Seq<char>, i: int)
    requires
        0 <= i < encode_utf8(text).len(),
    ensures
        c_bytes(text).len() == encode_utf8(text).len(),
        c_bytes(text)[i] == if encode_utf8(text)[i] == 0 {
            32
        } else {
            encode_utf8(text)[i]
        },
{
}

} // verus!
