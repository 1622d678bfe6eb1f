//! The messages between the library inside a client and the broker.
use vstd::prelude::*;
use vstd::utf8::{decode_utf8, encode_utf8, valid_utf8};

use crate::base64::{decode_base64, decoded};
use crate::number::{decimal_int, i64_text};
use crate::text::copy_text;
use crate::utf8::{lossy, lossy_text};

verus! {

/// A floating-point value, by what is ever asked of it: its bits, its decimal
/// text, and the integer that is left when its fraction is dropped.
#[derive(Debug)]
pub struct Real {
    pub bits: u64,
    pub text: String,
    pub truncated: i64,
}

impl Clone for Real {
    fn clone(&self) -> (r: Self)
        ensures
            r == *self,
    {
        Real { bits: self.bits, text: self.text.clone(), truncated: self.truncated }
    }
}

/// One value of a row or of a bound parameter. A blob travels as Base64 text.
#[derive(Debug)]
#[allow(inconsistent_fields)]
pub enum Cell {
    Null,
    Int { v: i64 },
    Real { v: Real },
    Text { v: String },
    Blob { v: String },
}

impl Clone for Cell {
    fn clone(&self) -> (r: Self)
        ensures
            r == *self,
    {
        match self {
            Cell::Null => Cell::Null,
            Cell::Int { v } => Cell::Int { v: *v },
            Cell::Real { v } => Cell::Real { v: v.clone() },
            Cell::Text { v } => Cell::Text { v: v.clone() },
            Cell::Blob { v } => Cell::Blob { v: v.clone() },
        }
    }
}

/// The bytes of a blob; `None` for any other value, and for a blob whose text
/// is not Base64.
pub open spec fn blob_of(cell: Cell) -> Option<Seq<u8>> {
    match cell {
        Cell::Blob { v } => decoded(encode_utf8(v@)),
        _ => None,
    }
}

/// A value as text.
pub open spec fn rendered(cell: Cell) -> Seq<char> {
    match cell {
        Cell::Null => seq![],
        Cell::Int { v } => decimal_int(v as int),
        Cell::Real { v } => v.text@,
        Cell::Text { v } => v@,
        Cell::Blob { .. } => match blob_of(cell) {
            Some(bytes) => lossy(bytes),
            None => seq![],
        },
    }
}

impl Cell {
    /// The value as text: nothing for a null, the bytes of a blob read as
    /// UTF-8, and nothing for a blob that cannot be decoded.
    pub fn render(&self) -> (out: String)
        ensures
            out@ == rendered(*self),
            blob_of(*self) matches Some(bytes) ==> valid_utf8(bytes) ==> out@ == decode_utf8(bytes),
    {
        match self {
            Cell::Null => String::new(),
            Cell::Int { v } => i64_text(*v),
            Cell::Real { v } => v.text.clone(),
            Cell::Text { v } => v.clone(),
            Cell::Blob { v } => match decode_base64(v.as_str()) {
                Ok(bytes) => lossy_text(bytes.as_slice()),
                Err(_) => String::new(),
            },
        }
    }

    /// The bytes of a blob.
    pub fn blob_bytes(&self) -> (r: Option<Vec<u8>>)
        ensures
            match r {
                Some(bytes) => blob_of(*self) == Some(bytes@),
                None => blob_of(*self) is None,
            },
    {
        match self {
            Cell::Blob { v } => match decode_base64(v.as_str()) {
                Ok(bytes) => Some(bytes),
                Err(_) => None,
            },
            _ => None,
        }
    }
}

/// A value bound to the parameter with the given index, counted from 1.
#[derive(Debug)]
pub struct Param {
    pub index: i32,
    pub value: Cell,
}

impl Clone for Param {
    fn clone(&self) -> (r: Self)
        ensures
            r == *self,
    {
        Param { index: self.index, value: self.value.clone() }
    }
}

/// A copy of the parameters.
pub fn copy_params(params: &Vec<Param>) -> (out: Vec<Param>)
    ensures
        out@ == params@,
{
    let mut out: Vec<Param> = Vec::new();
    let mut i: usize = 0;
    while i < params.len()
        invariant
            i <= params.len(),
            out@ == params@.take(i as int),
        decreases params.len() - i,
    {
        out.push(params[i].clone());
        assert(params@.take(i + 1) == params@.take(i as int).push(params@[i as int]));
        i = i + 1;
    }
    assert(params@.take(i as int) == params@);
    out
}

/// What the broker says first on a new connection.
#[derive(Debug)]
pub struct Hello {
    pub ok: bool,
    pub session: u64,
    pub error: Option<String>,
}

/// What a client asks of the broker.
#[derive(Debug)]
pub enum Request {
    /// Run every statement of the text.
    Exec { sql: String, params: Vec<Param> },
    /// Compile the first statement only. Does not run it.
    Prepare { sql: String },
    /// End the session.
    Close,
}

/// What the broker answers.
#[derive(Debug)]
pub struct Response {
    pub ok: bool,
    pub message: String,
    pub code: i32,
    pub columns: Vec<String>,
    pub rows: Vec<Vec<Cell>>,
    pub changes: i32,
    pub last_insert_rowid: i64,
    pub autocommit: bool,
    /// Byte offset of the uncompiled tail after `Request::Prepare`.
    pub tail: usize,
    pub param_count: i32,
    /// Empty string means a nameless `?` parameter. One entry per parameter.
    pub param_names: Vec<String>,
    /// Empty string means that the column has no declared type.
    pub decltypes: Vec<String>,
    pub total_changes: i32,
    /// `Request::Prepare` found comments or whitespace and no statement.
    pub empty: bool,
}

/// Whether the fields that describe a compiled statement are all unset.
pub open spec fn no_statement(r: Response) -> bool {
    &&& r.tail == 0
    &&& r.param_count == 0
    &&& r.param_names@.len() == 0
    &&& r.decltypes@.len() == 0
    &&& !r.empty
}

/// Whether `r` is the answer that reports a failure and carries nothing else.
pub open spec fn is_failure(
    r: Response,
    autocommit: bool,
    code: i32,
    message: Seq<char>,
) -> bool {
    &&& !r.ok
    &&& r.message@ == message
    &&& r.code == code
    &&& r.columns@.len() == 0
    &&& r.rows@.len() == 0
    &&& r.changes == 0
    &&& r.last_insert_rowid == 0
    &&& r.autocommit == autocommit
    &&& r.total_changes == 0
    &&& no_statement(r)
}

/// The answer that reports a failure.
pub fn error_response(autocommit: bool, code: i32, message: &str) -> (r: Response)
    ensures
        is_failure(r, autocommit, code, message@),
{
    Response {
        ok: false,
        message: copy_text(message),
        code,
        columns: Vec::new(),
        rows: Vec::new(),
        changes: 0,
        last_insert_rowid: 0,
        autocommit,
        tail: 0,
        param_count: 0,
        param_names: Vec::new(),
        decltypes: Vec::new(),
        total_changes: 0,
        empty: false,
    }
}

/// Whether `r` is the answer to a request to close.
pub open spec fn is_closed_answer(r: Response) -> bool {
    &&& r.ok
    &&& r.message@.len() == 0
    &&& r.code == 0
    &&& r.columns@.len() == 0
    &&& r.rows@.len() == 0
    &&& r.changes == 0
    &&& r.last_insert_rowid == 0
    &&& r.autocommit
    &&& r.total_changes == 0
    &&& no_statement(r)
}

/// The answer to a request to close.
pub fn ok_closed() -> (r: Response)
    ensures
        is_closed_answer(r),
{
    Response {
        ok: true,
        message: String::new(),
        code: 0,
        columns: Vec::new(),
        rows: Vec::new(),
        changes: 0,
        last_insert_rowid: 0,
        autocommit: true,
        tail: 0,
        param_count: 0,
        param_names: Vec::new(),
        decltypes: Vec::new(),
        total_changes: 0,
        empty: false,
    }
}

/// The answers that the broker gives of itself say what they are: one to a
/// request to close is ok, a failure is not and carries its code and message, and
/// neither carries rows.
pub proof fn answers_say_what_they_are(
    closed: Response,
    failed: Response,
    autocommit: bool,
    code: i32,
    message: Seq<char>,
)
    requires
        is_closed_answer(closed),
        is_failure(failed, autocommit, code, message),
    ensures
        closed.ok && closed.code == 0 && closed.autocommit && closed.rows@.len() == 0,
        !failed.ok && failed.code == code && failed.message@ == message,
        failed.autocommit == autocommit && failed.rows@.len() == 0 && failed.columns@.len() == 0,
{
}

} // verus!
