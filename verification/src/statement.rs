//! A compiled statement of a proxied connection: its parameters, its rows, the
//! row at hand.
use vstd::prelude::*;
use vstd::utf8::encode_utf8;

use crate::ctext::{
    all_c_bytes, c_bytes, cstring_lossy, cstrings, maybe_view, maybe_views, named_c_bytes,
    named_cstrings, views, CText,
};
use crate::number::{parse_i64, signed_value};
use crate::protocol::{blob_of, rendered, Cell, Param, Real, Response};
use crate::proxy::SQLITE_ERROR;
use crate::runner::{
    SQLITE_BLOB, SQLITE_DONE, SQLITE_FLOAT, SQLITE_INTEGER, SQLITE_NULL, SQLITE_ROW, SQLITE_TEXT,
};
use crate::text::{chars_of, copy_text, same_text, string_of, upper, upper_text};
use crate::utf8::{lossy, lossy_text};

verus! {

// ------------------------------------------------------------------- rows

/// The bytes of a blob; where the cell holds none that can be read, nothing.
pub open spec fn cell_blob(cell: Cell) -> Seq<u8> {
    match blob_of(cell) {
        Some(bytes) => bytes,
        None => seq![],
    }
}

/// The text of a cell, for a C program.
pub open spec fn cell_text(cell: Cell) -> Seq<u8> {
    match cell {
        Cell::Blob { .. } => c_bytes(lossy(cell_blob(cell))),
        _ => c_bytes(rendered(cell)),
    }
}

/// The texts of a row.
pub open spec fn row_texts(row: Seq<Cell>) -> Seq<Seq<u8>> {
    row.map_values(|cell: Cell| cell_text(cell))
}

/// The blobs of a row.
pub open spec fn row_blobs(row: Seq<Cell>) -> Seq<Seq<u8>> {
    row.map_values(|cell: Cell| cell_blob(cell))
}

/// What stands in the byte vectors.
pub open spec fn contents(blobs: Seq<Vec<u8>>) -> Seq<Seq<u8>> {
    Seq::new(blobs.len(), |i: int| blobs[i]@)
}

fn texts_and_blobs(row: &Vec<Cell>) -> (r: (Vec<CText>, Vec<Vec<u8>>))
    ensures
        views(r.0@) == row_texts(row@),
        contents(r.1@) == row_blobs(row@),
{
    let mut texts: Vec<CText> = Vec::new();
    let mut blobs: Vec<Vec<u8>> = Vec::new();
    let mut i: usize = 0;
    while i < row.len()
        invariant
            i <= row.len(),
            views(texts@) == row_texts(row@).take(i as int),
            contents(blobs@) == row_blobs(row@).take(i as int),
        decreases row.len() - i,
    {
        let ghost texts_before = texts@;
        let ghost blobs_before = blobs@;
        let cell = &row[i];
        match cell {
            Cell::Blob { .. } => {
                let bytes: Vec<u8> = match cell.blob_bytes() {
                    Some(bytes) => bytes,
                    None => Vec::new(),
                };
                assert(bytes@ == cell_blob(*cell));
                texts.push(cstring_lossy(lossy_text(bytes.as_slice()).as_str()));
                blobs.push(bytes);
            },
            _ => {
                texts.push(cstring_lossy(cell.render().as_str()));
                let none: Vec<u8> = Vec::new();
                assert(none@ == cell_blob(*cell));
                blobs.push(none);
            },
        }
        assert(views(texts@) == views(texts_before).push(cell_text(*cell)));
        assert(contents(blobs@) == contents(blobs_before).push(cell_blob(*cell)));
        assert(row_texts(row@).take(i + 1) == row_texts(row@).take(i as int).push(
            cell_text(*cell),
        ));
        assert(row_blobs(row@).take(i + 1) == row_blobs(row@).take(i as int).push(
            cell_blob(*cell),
        ));
        i = i + 1;
    }
    assert(row_texts(row@).take(i as int) == row_texts(row@));
    assert(row_blobs(row@).take(i as int) == row_blobs(row@));
    (texts, blobs)
}

// ------------------------------------------------------------- parameters

/// Where the first parameter with this name stands, or how many there are.
pub open spec fn first_named(names: Seq<Option<Seq<u8>>>, name: Seq<u8>) -> int
    decreases names.len(),
{
    if names.len() == 0 || names[0] == Some(name) {
        0
    } else {
        1 + first_named(names.drop_first(), name)
    }
}

proof fn first_named_is(names: Seq<Option<Seq<u8>>>, name: Seq<u8>, i: int)
    requires
        0 <= i <= names.len(),
        i < names.len() ==> names[i] == Some(name),
        forall|j: int| 0 <= j < i ==> #[trigger] names[j] != Some(name),
    ensures
        first_named(names, name) == i,
    decreases i,
{
    if i > 0 {
        assert(names[0] != Some(name));
        first_named_is(names.drop_first(), name, i - 1);
    }
}

/// The index of the parameter with exactly this name, or 0.
pub open spec fn exact_index(names: Seq<Option<Seq<u8>>>, name: Seq<char>) -> i32 {
    let i = first_named(names, encode_utf8(name));
    if i < names.len() {
        (i + 1) as i32
    } else {
        0
    }
}

/// Whether a name begins as names of parameters do in SQL.
pub open spec fn is_marked(name: Seq<char>) -> bool {
    name.len() > 0 && (name[0] == ':' || name[0] == '@' || name[0] == '$' || name[0] == '?')
}

/// The index of the parameter with this name, or 0. A name without a mark is
/// tried with each mark in turn.
pub open spec fn index_named(names: Seq<Option<Seq<u8>>>, name: Seq<char>) -> i32 {
    if first_named(names, encode_utf8(name)) < names.len() {
        exact_index(names, name)
    } else if is_marked(name) {
        0
    } else if first_named(names, encode_utf8(":"@ + name)) < names.len() {
        exact_index(names, ":"@ + name)
    } else if first_named(names, encode_utf8("@"@ + name)) < names.len() {
        exact_index(names, "@"@ + name)
    } else {
        exact_index(names, "$"@ + name)
    }
}

fn find_named(names: &Vec<Option<CText>>, name: &str) -> (r: Option<i32>)
    ensures
        match r {
            Some(i) => first_named(maybe_views(names@), encode_utf8(name@)) < names.len() && i
                == exact_index(maybe_views(names@), name@),
            None => first_named(maybe_views(names@), encode_utf8(name@)) == names.len(),
        },
{
    let wanted = name.as_bytes();
    let ghost all = maybe_views(names@);
    let mut i: usize = 0;
    while i < names.len()
        invariant
            i <= names.len(),
            wanted@ == encode_utf8(name@),
            all == maybe_views(names@),
            forall|j: int| 0 <= j < i ==> #[trigger] all[j] != Some(wanted@),
        decreases names.len() - i,
    {
        assert(all[i as int] == maybe_view(names@[i as int]));
        if let Some(n) = &names[i] {
            if n.is(wanted) {
                proof {
                    first_named_is(all, wanted@, i as int);
                }
                return Some((i + 1) as i32);
            }
        }
        i = i + 1;
    }
    proof {
        first_named_is(all, wanted@, i as int);
    }
    None
}

/// The parameters after a value was bound: it replaces the one bound to the
/// same index before, or comes last.
pub open spec fn upserted(params: Seq<Param>, index: i32, value: Cell) -> Seq<Param>
    decreases params.len(),
{
    if params.len() == 0 {
        seq![Param { index, value }]
    } else if params[0].index == index {
        seq![Param { index, value }] + params.drop_first()
    } else {
        seq![params[0]] + upserted(params.drop_first(), index, value)
    }
}

proof fn upserted_at(params: Seq<Param>, index: i32, value: Cell, i: int)
    requires
        0 <= i <= params.len(),
        i < params.len() ==> params[i].index == index,
        forall|j: int| 0 <= j < i ==> (#[trigger] params[j]).index != index,
    ensures
        upserted(params, index, value) == if i < params.len() {
            params.update(i, Param { index, value })
        } else {
            params.push(Param { index, value })
        },
    decreases i,
{
    if params.len() == 0 {
    } else if i == 0 {
        assert(seq![Param { index, value }] + params.drop_first() == params.update(
            0,
            Param { index, value },
        ));
    } else {
        let rest = params.drop_first();
        assert(params[0].index != index);
        assert forall|j: int| 0 <= j < i - 1 implies (#[trigger] rest[j]).index != index by {
            assert(rest[j] == params[j + 1]);
        }
        upserted_at(rest, index, value, i - 1);
        if i < params.len() {
            assert(seq![params[0]] + rest.update(i - 1, Param { index, value }) == params.update(
                i,
                Param { index, value },
            ));
        } else {
            assert(seq![params[0]] + rest.push(Param { index, value }) == params.push(
                Param { index, value },
            ));
        }
    }
}

// -------------------------------------------------------------- statement

/// The state of a compiled statement.
pub struct StmtState {
    /// The connection that it belongs to.
    pub db: u64,
    pub sql: Seq<char>,
    pub sql_c: Seq<u8>,
    pub params: Seq<Param>,
    pub columns: Seq<Seq<u8>>,
    pub decltypes: Seq<Option<Seq<u8>>>,
    pub param_names: Seq<Option<Seq<u8>>>,
    pub param_count: i32,
    pub rows: Seq<Vec<Cell>>,
    pub texts: Seq<Seq<u8>>,
    pub blobs: Seq<Seq<u8>>,
    /// How many rows were handed out.
    pub pos: usize,
    pub started: bool,
    pub failed: bool,
    pub last_step: i32,
}

impl StmtState {
    /// A statement that the broker compiled.
    pub open spec fn prepared(db: u64, sql: Seq<char>, resp: Response) -> StmtState {
        StmtState {
            db,
            sql,
            sql_c: c_bytes(sql),
            params: seq![],
            columns: all_c_bytes(resp.columns@),
            decltypes: named_c_bytes(resp.decltypes@),
            param_names: named_c_bytes(resp.param_names@),
            param_count: resp.param_count,
            rows: seq![],
            texts: seq![],
            blobs: seq![],
            pos: 0,
            started: false,
            failed: false,
            last_step: 0,
        }
    }

    /// The statement after the broker ran it.
    pub open spec fn ran(self, resp: Response) -> StmtState {
        StmtState {
            columns: if resp.columns@.len() == 0 {
                self.columns
            } else {
                all_c_bytes(resp.columns@)
            },
            rows: resp.rows@,
            pos: 0,
            failed: false,
            started: true,
            ..self
        }
    }

    /// The statement after the broker could not run it.
    pub open spec fn broke(self, code: i32) -> StmtState {
        StmtState { failed: true, started: true, last_step: code, ..self }
    }

    /// The next row of a statement that was run, and the code that says whether
    /// there is one.
    pub open spec fn advanced(self) -> (StmtState, i32) {
        if self.failed {
            (
                self,
                if self.last_step == 0 {
                    SQLITE_ERROR
                } else {
                    self.last_step
                },
            )
        } else if self.pos < self.rows.len() {
            (
                StmtState {
                    pos: (self.pos + 1) as usize,
                    texts: row_texts(self.rows[self.pos as int]@),
                    blobs: row_blobs(self.rows[self.pos as int]@),
                    last_step: SQLITE_ROW,
                    ..self
                },
                SQLITE_ROW,
            )
        } else {
            (StmtState { last_step: SQLITE_DONE, ..self }, SQLITE_DONE)
        }
    }

    /// The statement, ready to run again. Bound values stay.
    pub open spec fn reset(self) -> StmtState {
        StmtState {
            started: false,
            failed: false,
            rows: seq![],
            texts: seq![],
            blobs: seq![],
            pos: 0,
            last_step: 0,
            ..self
        }
    }

    /// The statement with a value bound.
    pub open spec fn bound(self, index: i32, value: Cell) -> StmtState {
        StmtState { params: upserted(self.params, index, value), ..self }
    }

    /// What holds of every statement: the texts and blobs at hand are those of
    /// the row handed out last.
    pub open spec fn wf(self) -> bool {
        &&& self.pos <= self.rows.len()
        &&& self.pos == 0 ==> self.texts.len() == 0 && self.blobs.len() == 0
        &&& self.pos > 0 ==> {
            &&& self.texts == row_texts(self.rows[self.pos - 1]@)
            &&& self.blobs == row_blobs(self.rows[self.pos - 1]@)
        }
        &&& !self.started ==> self.rows.len() == 0 && !self.failed
    }

    /// The cell of the row at hand, if there is one.
    pub open spec fn cell_at(self, index: i32) -> Option<Cell> {
        if self.last_step != SQLITE_ROW || self.pos == 0 || index < 0 || self.pos
            > self.rows.len() || index >= self.rows[self.pos - 1]@.len() {
            None
        } else {
            Some(self.rows[self.pos - 1]@[index as int])
        }
    }

    /// The type of a column of the row at hand.
    pub open spec fn column_type(self, index: i32) -> i32 {
        match self.cell_at(index) {
            Some(Cell::Null) => SQLITE_NULL,
            None => SQLITE_NULL,
            Some(Cell::Int { .. }) => SQLITE_INTEGER,
            Some(Cell::Real { .. }) => SQLITE_FLOAT,
            Some(Cell::Text { .. }) => SQLITE_TEXT,
            Some(Cell::Blob { .. }) => SQLITE_BLOB,
        }
    }

    /// The text of a column of the row at hand.
    pub open spec fn column_text(self, index: i32) -> Option<Seq<u8>> {
        match self.cell_at(index) {
            Some(Cell::Null) => None,
            Some(cell) => Some(cell_text(cell)),
            None => None,
        }
    }

    /// The bytes of a column of the row at hand. An empty blob is missing.
    pub open spec fn column_blob(self, index: i32) -> Option<Seq<u8>> {
        match self.cell_at(index) {
            Some(Cell::Null) => None,
            Some(Cell::Blob { v }) => if cell_blob(Cell::Blob { v }).len() == 0 {
                None
            } else {
                Some(cell_blob(Cell::Blob { v }))
            },
            Some(cell) => Some(cell_text(cell)),
            None => None,
        }
    }

    /// The length of a column of the row at hand.
    pub open spec fn column_bytes(self, index: i32) -> i32 {
        match self.cell_at(index) {
            Some(Cell::Null) => 0,
            Some(Cell::Blob { v }) => cell_blob(Cell::Blob { v }).len() as i32,
            Some(cell) => cell_text(cell).len() as i32,
            None => 0,
        }
    }

    /// A column of the row at hand as an integer.
    pub open spec fn column_int64(self, index: i32) -> i64 {
        match self.cell_at(index) {
            Some(Cell::Int { v }) => v,
            Some(Cell::Real { v }) => v.truncated,
            Some(Cell::Text { v }) => match signed_value(v@, i64::MIN as int, i64::MAX as int) {
                Some(n) => n as i64,
                None => 0,
            },
            _ => 0,
        }
    }
}

/// What a column is as a floating-point number; the arithmetic is done
/// elsewhere.
#[derive(Debug)]
#[allow(inconsistent_fields)]
pub enum Double {
    Zero,
    Bits { v: u64 },
    Int { v: i64 },
    Text { v: String },
}

/// Whether `d` is the column as a floating-point number.
pub open spec fn is_double_of(cell: Option<Cell>, d: Double) -> bool {
    match cell {
        Some(Cell::Real { v }) => d == (Double::Bits { v: v.bits }),
        Some(Cell::Int { v }) => d == (Double::Int { v }),
        Some(Cell::Text { v }) => d == (Double::Text { v }),
        _ => d == Double::Zero,
    }
}

/// A compiled statement of a proxied connection.
#[derive(Debug)]
pub struct ProxyStmt {
    db: u64,
    sql: String,
    sql_c: CText,
    params: Vec<Param>,
    columns: Vec<CText>,
    decltypes: Vec<Option<CText>>,
    param_names: Vec<Option<CText>>,
    param_count: i32,
    rows: Vec<Vec<Cell>>,
    texts: Vec<CText>,
    blobs: Vec<Vec<u8>>,
    pos: usize,
    started: bool,
    failed: bool,
    last_step: i32,
}

impl View for ProxyStmt {
    type V = StmtState;

    closed spec fn view(&self) -> StmtState {
        StmtState {
            db: self.db,
            sql: self.sql@,
            sql_c: self.sql_c@,
            params: self.params@,
            columns: views(self.columns@),
            decltypes: maybe_views(self.decltypes@),
            param_names: maybe_views(self.param_names@),
            param_count: self.param_count,
            rows: self.rows@,
            texts: views(self.texts@),
            blobs: contents(self.blobs@),
            pos: self.pos,
            started: self.started,
            failed: self.failed,
            last_step: self.last_step,
        }
    }
}

impl ProxyStmt {
    /// A statement that the broker compiled.
    pub fn prepared(db: u64, sql: String, resp: &Response) -> (stmt: ProxyStmt)
        ensures
            stmt@ == StmtState::prepared(db, sql@, *resp),
            stmt@.wf(),
    {
        let sql_c = cstring_lossy(sql.as_str());
        let stmt = ProxyStmt {
            db,
            sql,
            sql_c,
            params: Vec::new(),
            columns: cstrings(&resp.columns),
            decltypes: named_cstrings(&resp.decltypes),
            param_names: named_cstrings(&resp.param_names),
            param_count: resp.param_count,
            rows: Vec::new(),
            texts: Vec::new(),
            blobs: Vec::new(),
            pos: 0,
            started: false,
            failed: false,
            last_step: 0,
        };
        assert(stmt@.params == Seq::<Param>::empty());
        assert(stmt@.rows == Seq::<Vec<Cell>>::empty());
        assert(stmt@.texts == Seq::<Seq<u8>>::empty());
        assert(stmt@.blobs == Seq::<Seq<u8>>::empty());
        stmt
    }

    /// Takes over the answer of the broker that ran the statement.
    pub fn run(&mut self, resp: Response)
        requires
            old(self)@.wf(),
            !old(self)@.started,
        ensures
            final(self)@ == old(self)@.ran(resp),
            final(self)@.wf(),
    {
        if resp.columns.len() > 0 {
            self.columns = cstrings(&resp.columns);
        }
        self.rows = resp.rows;
        self.pos = 0;
        self.failed = false;
        self.started = true;
    }

    /// Notes that the broker could not run the statement.
    pub fn broken(&mut self, code: i32)
        requires
            old(self)@.wf(),
        ensures
            final(self)@ == old(self)@.broke(code),
            final(self)@.wf(),
    {
        self.failed = true;
        self.started = true;
        self.last_step = code;
    }

    /// Hands out the next row.
    pub fn advance(&mut self) -> (rc: i32)
        requires
            old(self)@.wf(),
        ensures
            final(self)@ == old(self)@.advanced().0,
            rc == old(self)@.advanced().1,
            final(self)@.wf(),
    {
        if self.failed {
            return if self.last_step == 0 {
                SQLITE_ERROR
            } else {
                self.last_step
            };
        }
        if self.pos < self.rows.len() {
            self.pos = self.pos + 1;
            self.cache_row();
            self.last_step = SQLITE_ROW;
            SQLITE_ROW
        } else {
            self.last_step = SQLITE_DONE;
            SQLITE_DONE
        }
    }

    /// Makes the texts and blobs of the row at hand.
    fn cache_row(&mut self)
        requires
            0 < old(self)@.pos <= old(self)@.rows.len(),
        ensures
            final(self)@ == (StmtState {
                texts: row_texts(old(self)@.rows[old(self)@.pos - 1]@),
                blobs: row_blobs(old(self)@.rows[old(self)@.pos - 1]@),
                ..old(self)@
            }),
    {
        let (texts, blobs) = texts_and_blobs(&self.rows[self.pos - 1]);
        self.texts = texts;
        self.blobs = blobs;
    }

    /// Makes the statement ready to run again.
    pub fn reset(&mut self)
        ensures
            final(self)@ == old(self)@.reset(),
            final(self)@.wf(),
    {
        self.started = false;
        self.failed = false;
        self.rows = Vec::new();
        self.texts = Vec::new();
        self.blobs = Vec::new();
        self.pos = 0;
        self.last_step = 0;
        assert(self@.rows == Seq::<Vec<Cell>>::empty());
        assert(self@.texts == Seq::<Seq<u8>>::empty());
        assert(self@.blobs == Seq::<Seq<u8>>::empty());
    }

    /// Binds a value to an index.
    pub fn upsert_param(&mut self, index: i32, value: Cell)
        ensures
            final(self)@ == old(self)@.bound(index, value),
    {
        let mut i: usize = 0;
        while i < self.params.len() && self.params[i].index != index
            invariant
                i <= self.params.len(),
                self@ == old(self)@,
                forall|j: int| 0 <= j < i ==> (#[trigger] self@.params[j]).index != index,
            decreases self.params.len() - i,
        {
            i = i + 1;
        }
        proof {
            upserted_at(self@.params, index, value, i as int);
        }
        if i < self.params.len() {
            self.params.set(i, Param { index, value });
        } else {
            self.params.push(Param { index, value });
        }
    }

    /// Drops all bound values.
    pub fn clear_params(&mut self)
        ensures
            final(self)@ == (StmtState { params: seq![], ..old(self)@ }),
    {
        self.params = Vec::new();
        assert(self@.params == Seq::<Param>::empty());
    }

    /// The index of the parameter with this name, or 0.
    pub fn param_index(&self, query: &str) -> (r: i32)
        ensures
            r == index_named(self@.param_names, query@),
    {
        if let Some(i) = find_named(&self.param_names, query) {
            return i;
        }
        let chars = chars_of(query);
        if chars.len() > 0 && (chars[0] == ':' || chars[0] == '@' || chars[0] == '$' || chars[0]
            == '?') {
            return 0;
        }
        let mut colon = copy_text(":");
        colon.append(query);
        if let Some(i) = find_named(&self.param_names, colon.as_str()) {
            return i;
        }
        let mut at = copy_text("@");
        at.append(query);
        if let Some(i) = find_named(&self.param_names, at.as_str()) {
            return i;
        }
        let mut dollar = copy_text("$");
        dollar.append(query);
        match find_named(&self.param_names, dollar.as_str()) {
            Some(i) => i,
            None => 0,
        }
    }

    /// The cell of the row at hand, if there is one.
    pub fn cell_at(&self, index: i32) -> (r: Option<&Cell>)
        ensures
            match r {
                Some(cell) => self@.cell_at(index) == Some(*cell),
                None => self@.cell_at(index) is None,
            },
    {
        if self.last_step != SQLITE_ROW || self.pos == 0 || index < 0 || self.pos
            > self.rows.len() {
            return None;
        }
        let row = &self.rows[self.pos - 1];
        if index as usize >= row.len() {
            None
        } else {
            Some(&row[index as usize])
        }
    }

    /// The type of a column of the row at hand.
    pub fn column_type(&self, index: i32) -> (r: i32)
        ensures
            r == self@.column_type(index),
    {
        match self.cell_at(index) {
            None => SQLITE_NULL,
            Some(cell) => match cell {
                Cell::Null => SQLITE_NULL,
                Cell::Int { .. } => SQLITE_INTEGER,
                Cell::Real { .. } => SQLITE_FLOAT,
                Cell::Text { .. } => SQLITE_TEXT,
                Cell::Blob { .. } => SQLITE_BLOB,
            },
        }
    }

    fn text_ptr(&self, index: i32) -> (r: &CText)
        requires
            self@.wf(),
            self@.cell_at(index) is Some,
        ensures
            r@ == cell_text(self@.cell_at(index)->0),
    {
        proof {
            let row = self@.rows[self@.pos - 1]@;
            assert(self@.texts == row_texts(row));
            assert(row_texts(row)[index as int] == cell_text(row[index as int]));
            assert(views(self.texts@)[index as int] == self.texts@[index as int]@);
        }
        &self.texts[index as usize]
    }

    fn blob_at(&self, index: i32) -> (r: &Vec<u8>)
        requires
            self@.wf(),
            self@.cell_at(index) is Some,
        ensures
            r@ == cell_blob(self@.cell_at(index)->0),
    {
        proof {
            let row = self@.rows[self@.pos - 1]@;
            assert(self@.blobs == row_blobs(row));
            assert(row_blobs(row)[index as int] == cell_blob(row[index as int]));
            assert(contents(self.blobs@)[index as int] == self.blobs@[index as int]@);
        }
        &self.blobs[index as usize]
    }

    /// The text of a column of the row at hand.
    pub fn column_text(&self, index: i32) -> (r: Option<&CText>)
        requires
            self@.wf(),
        ensures
            maybe_ref(r) == self@.column_text(index),
    {
        match self.cell_at(index) {
            None => None,
            Some(cell) => match cell {
                Cell::Null => None,
                _ => Some(self.text_ptr(index)),
            },
        }
    }

    /// The bytes of a column of the row at hand.
    pub fn column_blob(&self, index: i32) -> (r: Option<ColumnBytes<'_>>)
        requires
            self@.wf(),
        ensures
            match r {
                Some(b) => self@.column_blob(index) == Some(b@),
                None => self@.column_blob(index) is None,
            },
    {
        match self.cell_at(index) {
            None => None,
            Some(cell) => match cell {
                Cell::Null => None,
                Cell::Blob { .. } => {
                    let bytes = self.blob_at(index);
                    if bytes.len() == 0 {
                        None
                    } else {
                        Some(ColumnBytes::Blob { bytes })
                    }
                },
                _ => Some(ColumnBytes::Text { text: self.text_ptr(index) }),
            },
        }
    }

    /// The length of a column of the row at hand.
    pub fn column_bytes(&self, index: i32) -> (r: i32)
        requires
            self@.wf(),
        ensures
            r == self@.column_bytes(index),
    {
        match self.cell_at(index) {
            None => 0,
            Some(cell) => match cell {
                Cell::Null => 0,
                Cell::Blob { .. } => self.blob_at(index).len() as i32,
                _ => self.text_ptr(index).len() as i32,
            },
        }
    }

    /// A column of the row at hand as an integer.
    pub fn column_int64(&self, index: i32) -> (r: i64)
        ensures
            r == self@.column_int64(index),
    {
        match self.cell_at(index) {
            None => 0,
            Some(cell) => match cell {
                Cell::Int { v } => *v,
                Cell::Real { v } => v.truncated,
                Cell::Text { v } => match parse_i64(v.as_str()) {
                    Some(n) => n,
                    None => 0,
                },
                _ => 0,
            },
        }
    }

    /// A column of the row at hand as a floating-point number.
    pub fn column_double(&self, index: i32) -> (r: Double)
        ensures
            is_double_of(self@.cell_at(index), r),
    {
        match self.cell_at(index) {
            None => Double::Zero,
            Some(cell) => match cell {
                Cell::Real { v } => Double::Bits { v: v.bits },
                Cell::Int { v } => Double::Int { v: *v },
                Cell::Text { v } => Double::Text { v: v.clone() },
                _ => Double::Zero,
            },
        }
    }

    /// The name of a column.
    pub fn column_name(&self, index: i32) -> (r: Option<&CText>)
        ensures
            match r {
                Some(t) => 0 <= index < self@.columns.len() && t@ == self@.columns[index as int],
                None => !(0 <= index < self@.columns.len()),
            },
    {
        if index < 0 || index as usize >= self.columns.len() {
            None
        } else {
            Some(&self.columns[index as usize])
        }
    }

    /// The declared type of a column.
    pub fn column_decltype(&self, index: i32) -> (r: Option<&CText>)
        ensures
            maybe_ref(r) == at_or_none(self@.decltypes, index as int),
    {
        if index < 0 {
            None
        } else {
            maybe_at(&self.decltypes, index as usize)
        }
    }

    /// The name of the parameter with this index.
    pub fn parameter_name(&self, index: i32) -> (r: Option<&CText>)
        ensures
            maybe_ref(r) == at_or_none(self@.param_names, index - 1),
    {
        if index <= 0 {
            None
        } else {
            maybe_at(&self.param_names, (index - 1) as usize)
        }
    }

    /// How many columns the statement has.
    pub fn column_count(&self) -> (r: i32)
        ensures
            r == self@.columns.len() as i32,
    {
        self.columns.len() as i32
    }

    /// How many parameters the statement has.
    pub fn param_count(&self) -> (r: i32)
        ensures
            r == self@.param_count,
    {
        self.param_count
    }

    /// Whether a row is at hand.
    pub fn has_row(&self) -> (r: bool)
        ensures
            r == (self@.last_step == SQLITE_ROW),
    {
        self.last_step == SQLITE_ROW
    }

    /// Whether the statement was run since it was last reset.
    pub fn started(&self) -> (r: bool)
        ensures
            r == self@.started,
    {
        self.started
    }

    /// The connection that the statement belongs to.
    pub fn db(&self) -> (r: u64)
        ensures
            r == self@.db,
    {
        self.db
    }

    /// The text of the statement.
    pub fn sql(&self) -> (r: &String)
        ensures
            r@ == self@.sql,
    {
        &self.sql
    }

    /// The text of the statement, for a C program.
    pub fn sql_c(&self) -> (r: &CText)
        ensures
            r@ == self@.sql_c,
    {
        &self.sql_c
    }

    /// The values bound so far.
    pub fn params(&self) -> (r: &Vec<Param>)
        ensures
            r@ == self@.params,
    {
        &self.params
    }
}

/// The entry at a position, where there is one and it is not missing.
pub open spec fn at_or_none(names: Seq<Option<Seq<u8>>>, i: int) -> Option<Seq<u8>> {
    if 0 <= i < names.len() {
        names[i]
    } else {
        None
    }
}

/// What stands in a C text that may be missing.
pub open spec fn maybe_ref(text: Option<&CText>) -> Option<Seq<u8>> {
    match text {
        Some(t) => Some(t@),
        None => None,
    }
}

fn maybe_at(names: &Vec<Option<CText>>, i: usize) -> (r: Option<&CText>)
    ensures
        maybe_ref(r) == at_or_none(maybe_views(names@), i as int),
{
    if i >= names.len() {
        None
    } else {
        match &names[i] {
            Some(t) => Some(t),
            None => None,
        }
    }
}

/// The bytes of a column: those of a blob, or the text of another value.
#[derive(Debug)]
pub enum ColumnBytes<'a> {
    Blob { bytes: &'a Vec<u8> },
    Text { text: &'a CText },
}

impl<'a> View for ColumnBytes<'a> {
    type V = Seq<u8>;

    open spec fn view(&self) -> Seq<u8> {
        match self {
            ColumnBytes::Blob { bytes } => bytes@,
            ColumnBytes::Text { text } => text@,
        }
    }
}

// ---------------------------------------------------------------- keyword

/// Whether the character separates words of SQL.
pub open spec fn is_sql_space(c: char) -> bool {
    c == ' ' || c == '\t' || c == '\n' || c == '\r' || c == '\u{c}'
}

/// Whether the character is an ASCII letter.
pub open spec fn is_letter(c: char) -> bool {
    'a' <= c <= 'z' || 'A' <= c <= 'Z'
}

/// How many letters the text begins with.
pub open spec fn letters(s: Seq<char>) -> nat
    decreases s.len(),
{
    if s.len() > 0 && is_letter(s[0]) {
        1 + letters(s.drop_first())
    } else {
        0
    }
}

/// What follows the rest of a line; the end of the line belongs to it.
pub open spec fn after_line(s: Seq<char>) -> Seq<char>
    decreases s.len(),
{
    if s.len() == 0 || s[0] == '\n' {
        s
    } else {
        after_line(s.drop_first())
    }
}

/// What follows the rest of a comment in `/*` and `*/`.
pub open spec fn after_comment(s: Seq<char>) -> Seq<char>
    decreases s.len(),
{
    if s.len() < 2 {
        seq![]
    } else if s[0] == '*' && s[1] == '/' {
        s.skip(2)
    } else {
        after_comment(s.drop_first())
    }
}

proof fn after_is_shorter(s: Seq<char>)
    ensures
        after_line(s).len() <= s.len(),
        after_comment(s).len() <= s.len(),
    decreases s.len(),
{
    if s.len() > 0 {
        after_is_shorter(s.drop_first());
    }
}

/// The first word of an SQL text, in upper case. Whitespace and comments before
/// it do not count.
pub open spec fn first_keyword(s: Seq<char>) -> Option<Seq<char>>
    decreases s.len(),
    via first_keyword_shortens
{
    if s.len() == 0 {
        None
    } else if is_sql_space(s[0]) {
        first_keyword(s.drop_first())
    } else if s.len() > 1 && s[0] == '-' && s[1] == '-' {
        first_keyword(after_line(s.skip(2)))
    } else if s.len() > 1 && s[0] == '/' && s[1] == '*' {
        first_keyword(after_comment(s.skip(2)))
    } else if letters(s) == 0 {
        None
    } else {
        Some(upper(s.take(letters(s) as int)))
    }
}

#[via_fn]
proof fn first_keyword_shortens(s: Seq<char>) {
    if s.len() > 1 {
        after_is_shorter(s.skip(2));
    }
}

fn skip_line(v: &Vec<char>, from: usize) -> (to: usize)
    requires
        from <= v.len(),
    ensures
        from <= to <= v.len(),
        v@.skip(to as int) == after_line(v@.skip(from as int)),
{
    let mut i = from;
    while i < v.len() && v[i] != '\n'
        invariant
            from <= i <= v.len(),
            after_line(v@.skip(i as int)) == after_line(v@.skip(from as int)),
        decreases v.len() - i,
    {
        assert(v@.skip(i as int).drop_first() == v@.skip(i + 1));
        i = i + 1;
    }
    i
}

fn skip_comment(v: &Vec<char>, from: usize) -> (to: usize)
    requires
        from <= v.len(),
    ensures
        from <= to <= v.len(),
        v@.skip(to as int) == after_comment(v@.skip(from as int)),
{
    let mut i = from;
    while v.len() - i > 1 && !(v[i] == '*' && v[i + 1] == '/')
        invariant
            from <= i <= v.len(),
            after_comment(v@.skip(i as int)) == after_comment(v@.skip(from as int)),
        decreases v.len() - i,
    {
        assert(v@.skip(i as int).drop_first() == v@.skip(i + 1));
        i = i + 1;
    }
    if v.len() - i > 1 {
        assert(v@.skip(i as int).skip(2) == v@.skip(i + 2));
        i + 2
    } else {
        assert(v@.skip(v.len() as int) == Seq::<char>::empty());
        v.len()
    }
}

fn count_letters(v: &Vec<char>, from: usize) -> (to: usize)
    requires
        from <= v.len(),
    ensures
        from <= to <= v.len(),
        to - from == letters(v@.skip(from as int)),
{
    let mut i = from;
    while i < v.len() && (('a' <= v[i] && v[i] <= 'z') || ('A' <= v[i] && v[i] <= 'Z'))
        invariant
            from <= i <= v.len(),
            letters(v@.skip(from as int)) == (i - from) + letters(v@.skip(i as int)),
        decreases v.len() - i,
    {
        assert(v@.skip(i as int).drop_first() == v@.skip(i + 1));
        i = i + 1;
    }
    i
}

/// The first word of an SQL text, in upper case.
pub fn keyword(sql: &str) -> (r: Option<String>)
    ensures
        match r {
            Some(word) => first_keyword(sql@) == Some(word@),
            None => first_keyword(sql@) is None,
        },
{
    let v = chars_of(sql);
    let mut i: usize = 0;
    assert(v@.skip(0) == v@);
    while i < v.len()
        invariant
            i <= v.len(),
            v@ == sql@,
            first_keyword(v@.skip(i as int)) == first_keyword(sql@),
        decreases v.len() - i,
    {
        let ghost rest = v@.skip(i as int);
        let c = v[i];
        assert(rest[0] == c);
        if c == ' ' || c == '\t' || c == '\n' || c == '\r' || c == '\u{c}' {
            assert(rest.drop_first() == v@.skip(i + 1));
            i = i + 1;
        } else if v.len() - i > 1 && c == '-' && v[i + 1] == '-' {
            assert(rest.skip(2) == v@.skip(i + 2));
            i = skip_line(&v, i + 2);
        } else if v.len() - i > 1 && c == '/' && v[i + 1] == '*' {
            assert(rest.skip(2) == v@.skip(i + 2));
            i = skip_comment(&v, i + 2);
        } else {
            let to = count_letters(&v, i);
            if to == i {
                return None;
            }
            let word = string_of(&v, i, to);
            assert(word@ == rest.take(letters(rest) as int));
            return Some(upper_text(word.as_str()));
        }
    }
    None
}

/// Whether a statement only reads, by its first word.
pub open spec fn only_reads(sql: Seq<char>) -> bool {
    match first_keyword(sql) {
        Some(word) => word == "SELECT"@ || word == "EXPLAIN"@ || word == "PRAGMA"@ || word
            == "VALUES"@,
        None => false,
    }
}

/// Whether a statement only reads, by its first word.
pub fn reads_only(sql: &str) -> (r: bool)
    ensures
        r == only_reads(sql@),
{
    match keyword(sql) {
        Some(word) => {
            let word = word.as_str();
            same_text(word, "SELECT") || same_text(word, "EXPLAIN") || same_text(word, "PRAGMA")
                || same_text(word, "VALUES")
        },
        None => false,
    }
}

/// The limit with this number.
pub open spec fn limit(id: i32) -> i32 {
    if id == 0 || id == 1 {
        1_000_000_000
    } else if id == 2 {
        2000
    } else if id == 3 || id == 10 {
        1000
    } else if id == 4 {
        500
    } else if id == 5 {
        25_000
    } else if id == 6 {
        100
    } else if id == 7 {
        10
    } else if id == 8 {
        50_000
    } else if id == 9 {
        32_766
    } else {
        1_000_000
    }
}

/// The limit with this number.
pub fn limit_value(id: i32) -> (r: i32)
    ensures
        r == limit(id),
{
    match id {
        0 | 1 => 1_000_000_000,
        2 => 2000,
        3 | 10 => 1000,
        4 => 500,
        5 => 25_000,
        6 => 100,
        7 => 10,
        8 => 50_000,
        9 => 32_766,
        _ => 1_000_000,
    }
}

// ------------------------------------------------------------ keyword laws

/// Whitespace before a statement does not change its first word.
pub proof fn space_before_a_statement_does_not_count(c: char, sql: Seq<char>)
    requires
        is_sql_space(c),
    ensures
        first_keyword(seq![c] + sql) == first_keyword(sql),
{
    assert((seq![c] + sql).drop_first() == sql);
}

/// A comment before a statement, to the end of its line or between its marks,
/// does not change its first word.
pub proof fn comments_before_a_statement_do_not_count(comment: Seq<char>, sql: Seq<char>)
    ensures
        !comment.contains('\n') ==> first_keyword(seq!['-', '-'] + comment + seq!['\n'] + sql)
            == first_keyword(sql),
        (forall|i: int|
            0 <= i < comment.len() - 1 ==> !(#[trigger] comment[i] == '*' && comment[i + 1] == '/'))
            ==> first_keyword(seq!['/', '*'] + comment + seq!['*', '/'] + sql) == first_keyword(sql),
{
    if !comment.contains('\n') {
        let s = seq!['-', '-'] + comment + seq!['\n'] + sql;
        assert(s.skip(2) == comment + seq!['\n'] + sql);
        line_is_left(comment, sql);
        space_before_a_statement_does_not_count('\n', sql);
        assert(s[0] == '-' && s[1] == '-');
    }
    if forall|i: int|
        0 <= i < comment.len() - 1 ==> !(#[trigger] comment[i] == '*' && comment[i + 1] == '/') {
        let s = seq!['/', '*'] + comment + seq!['*', '/'] + sql;
        assert(s.skip(2) == comment + seq!['*', '/'] + sql);
        comment_is_left(comment, sql);
        assert(s[0] == '/' && s[1] == '*');
    }
}

proof fn line_is_left(comment: Seq<char>, sql: Seq<char>)
    requires
        !comment.contains('\n'),
    ensures
        after_line(comment + seq!['\n'] + sql) == seq!['\n'] + sql,
    decreases comment.len(),
{
    let s = comment + seq!['\n'] + sql;
    if comment.len() == 0 {
        assert(s == seq!['\n'] + sql);
    } else {
        let rest = comment.drop_first();
        assert(comment.contains(comment[0]));
        assert(!rest.contains('\n')) by {
            if rest.contains('\n') {
                let j = choose|j: int| 0 <= j < rest.len() && rest[j] == '\n';
                assert(comment[j + 1] == '\n');
            }
        }
        line_is_left(rest, sql);
        assert(s.drop_first() == rest + seq!['\n'] + sql);
    }
}

proof fn comment_is_left(comment: Seq<char>, sql: Seq<char>)
    requires
        forall|i: int|
            0 <= i < comment.len() - 1 ==> !(#[trigger] comment[i] == '*' && comment[i + 1] == '/'),
    ensures
        after_comment(comment + seq!['*', '/'] + sql) == sql,
    decreases comment.len(),
{
    let s = comment + seq!['*', '/'] + sql;
    if comment.len() == 0 {
        assert(s.skip(2) == sql);
    } else {
        let rest = comment.drop_first();
        assert forall|i: int| 0 <= i < rest.len() - 1 implies !(#[trigger] rest[i] == '*' && rest[i
            + 1] == '/') by {
            assert(rest[i] == comment[i + 1]);
            assert(!(comment[i + 1] == '*' && comment[i + 2] == '/'));
        }
        comment_is_left(rest, sql);
        assert(s.drop_first() == rest + seq!['*', '/'] + sql);
        if comment.len() > 1 {
            assert(!(comment[0] == '*' && comment[1] == '/'));
        }
    }
}

/// The first word of a statement is the letters that it begins with, in upper
/// case. A statement only reads if that word is SELECT, EXPLAIN, PRAGMA or
/// VALUES, however it is written.
pub proof fn the_letters_at_the_front_are_the_first_word(word: Seq<char>, rest: Seq<char>)
    requires
        word.len() > 0,
        forall|i: int| 0 <= i < word.len() ==> is_letter(#[trigger] word[i]),
        rest.len() > 0 ==> !is_letter(rest[0]),
    ensures
        first_keyword(word + rest) == Some(upper(word)),
        only_reads(word + rest) <==> (upper(word) == "SELECT"@ || upper(word) == "EXPLAIN"@ || upper(
            word,
        ) == "PRAGMA"@ || upper(word) == "VALUES"@),
{
    let s = word + rest;
    assert(s[0] == word[0]);
    assert(is_letter(word[0]));
    letters_are_counted(word, rest);
    assert(s.take(word.len() as int) == word);
}

proof fn letters_are_counted(word: Seq<char>, rest: Seq<char>)
    requires
        forall|i: int| 0 <= i < word.len() ==> is_letter(#[trigger] word[i]),
        rest.len() > 0 ==> !is_letter(rest[0]),
    ensures
        letters(word + rest) == word.len(),
    decreases word.len(),
{
    let s = word + rest;
    if word.len() == 0 {
        assert(s == rest);
    } else {
        assert(is_letter(word[0]));
        letters_are_counted(word.drop_first(), rest);
        assert(s.drop_first() == word.drop_first() + rest);
    }
}

} // verus!
