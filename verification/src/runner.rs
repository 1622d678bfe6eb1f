//! Running a request on a connection: the statements of a script one after the
//! other, the values that go in and come out, the answer.
use vstd::prelude::*;
use vstd::utf8::{
    decode_utf8, encode_utf8, encode_utf8_decode_utf8, encode_utf8_valid_utf8, is_char_boundary,
};

use crate::base64::{base64_reads_back, decode_base64, decoded, encode_base64, encoded};
use crate::number::{decimal, decimal_int, i64_text, u64_text};
use crate::protocol::{blob_of, no_statement, Cell, Param, Real, Response};
use crate::text::{chars_of, copy_text, is_blank, is_space, space, texts};

verus! {

/// Result codes of the SQLite interface.
pub const SQLITE_OK: i32 = 0;

pub const SQLITE_ROW: i32 = 100;

pub const SQLITE_DONE: i32 = 101;

/// Types of values in the SQLite interface.
pub const SQLITE_INTEGER: i32 = 1;

pub const SQLITE_FLOAT: i32 = 2;

pub const SQLITE_TEXT: i32 = 3;

pub const SQLITE_BLOB: i32 = 4;

pub const SQLITE_NULL: i32 = 5;

// ---------------------------------------------------------------- values

/// How a value of a row is to be fetched.
#[derive(Debug, Clone, Copy, PartialEq, Eq, Structural)]
pub enum Fetch {
    Null,
    Int,
    Real,
    Text,
    Blob,
}

/// How a value is fetched, by the type that SQLite gives it.
pub fn fetch_for(kind: i32) -> (f: Fetch)
    ensures
        f == if kind == SQLITE_NULL {
            Fetch::Null
        } else if kind == SQLITE_INTEGER {
            Fetch::Int
        } else if kind == SQLITE_FLOAT {
            Fetch::Real
        } else if kind == SQLITE_BLOB {
            Fetch::Blob
        } else {
            Fetch::Text
        },
{
    if kind == SQLITE_NULL {
        Fetch::Null
    } else if kind == SQLITE_INTEGER {
        Fetch::Int
    } else if kind == SQLITE_FLOAT {
        Fetch::Real
    } else if kind == SQLITE_BLOB {
        Fetch::Blob
    } else {
        Fetch::Text
    }
}

/// A value as it was fetched; text that could not be had is missing.
#[derive(Debug)]
#[allow(inconsistent_fields)]
pub enum Fetched {
    Null,
    Int { v: i64 },
    Real { v: Real },
    Text { v: Option<String> },
    Blob { v: Vec<u8> },
}

/// Whether the cell is the fetched value.
pub open spec fn is_cell_of(f: Fetched, cell: Cell) -> bool {
    match f {
        Fetched::Null => cell == Cell::Null,
        Fetched::Int { v } => cell == (Cell::Int { v }),
        Fetched::Real { v } => cell == (Cell::Real { v }),
        Fetched::Text { v: Some(t) } => cell == (Cell::Text { v: t }),
        Fetched::Text { v: None } => cell == Cell::Null,
        Fetched::Blob { v } => cell matches Cell::Blob { v: t } && t@ == encoded(v@),
    }
}

/// The cell of a fetched value.
pub fn cell_of(f: Fetched) -> (cell: Cell)
    ensures
        is_cell_of(f, cell),
{
    match f {
        Fetched::Null => Cell::Null,
        Fetched::Int { v } => Cell::Int { v },
        Fetched::Real { v } => Cell::Real { v },
        Fetched::Text { v } => match v {
            Some(t) => Cell::Text { v: t },
            None => Cell::Null,
        },
        Fetched::Blob { v } => Cell::Blob { v: encode_base64(v.as_slice()) },
    }
}

/// A blob that travels as a cell arrives with the bytes that were fetched.
pub proof fn blob_survives_the_wire(v: Vec<u8>, cell: Cell)
    requires
        is_cell_of(Fetched::Blob { v }, cell),
    ensures
        blob_of(cell) == Some(v@),
{
    base64_reads_back(v@);
}

/// A value to bind.
#[derive(Debug)]
#[allow(inconsistent_fields)]
pub enum BindValue {
    Null,
    Int { v: i64 },
    Real { bits: u64 },
    Text { v: String },
    Blob { v: Vec<u8> },
}

/// Where the first zero byte stands, or the length.
pub open spec fn first_zero(bytes: Seq<u8>) -> int
    decreases bytes.len(),
{
    if bytes.len() == 0 || bytes[0] == 0 {
        0
    } else {
        1 + first_zero(bytes.drop_first())
    }
}

/// A position with a zero byte, and none before it, is the first one.
pub proof fn first_zero_is(bytes: Seq<u8>, i: int)
    requires
        0 <= i <= bytes.len(),
        i < bytes.len() ==> bytes[i] == 0,
        forall|j: int| 0 <= j < i ==> #[trigger] bytes[j] != 0,
    ensures
        first_zero(bytes) == i,
    decreases i,
{
    if i > 0 {
        assert(bytes[0] != 0);
        first_zero_is(bytes.drop_first(), i - 1);
    }
}

/// Where the first zero byte stands, or the length.
pub fn find_zero(bytes: &[u8]) -> (i: usize)
    ensures
        i == first_zero(bytes@),
        i <= bytes.len(),
        forall|j: int| 0 <= j < i ==> #[trigger] bytes@[j] != 0,
        i < bytes.len() ==> bytes@[i as int] == 0,
{
    let mut i: usize = 0;
    while i < bytes.len() && bytes[i] != 0
        invariant
            i <= bytes.len(),
            forall|j: int| 0 <= j < i ==> #[trigger] bytes@[j] != 0,
        decreases bytes.len() - i,
    {
        i = i + 1;
    }
    proof {
        first_zero_is(bytes@, i as int);
    }
    i
}

/// What is said of text with a zero byte where none may be.
pub open spec fn zero_byte_message(bytes: Seq<u8>) -> Seq<char> {
    "nul byte found in provided data at position: "@ + decimal(first_zero(bytes) as nat)
}

/// Whether text can be handed over with a zero byte as its end.
pub open spec fn fits_c(text: Seq<char>) -> bool {
    first_zero(encode_utf8(text)) == encode_utf8(text).len()
}

/// Checks that the text can be handed over with a zero byte as its end.
pub fn check_c_text(text: &str) -> (r: Result<(), String>)
    ensures
        match r {
            Ok(_) => fits_c(text@),
            Err(why) => !fits_c(text@) && why@ == zero_byte_message(encode_utf8(text@)),
        },
{
    let bytes = text.as_bytes();
    let i = find_zero(bytes);
    if i == bytes.len() {
        Ok(())
    } else {
        let mut why = copy_text("nul byte found in provided data at position: ");
        why.append(u64_text(i as u64).as_str());
        Err(why)
    }
}

/// Whether `r` is what binding the cell comes to: a value, or why there is none.
pub open spec fn is_bind_of(cell: Cell, r: Result<BindValue, String>) -> bool {
    match cell {
        Cell::Null => r == Ok::<BindValue, String>(BindValue::Null),
        Cell::Int { v } => r == Ok::<BindValue, String>(BindValue::Int { v }),
        Cell::Real { v } => r == Ok::<BindValue, String>(BindValue::Real { bits: v.bits }),
        Cell::Text { v } => if fits_c(v@) {
            r == Ok::<BindValue, String>(BindValue::Text { v })
        } else {
            r matches Err(why) && why@ == zero_byte_message(encode_utf8(v@))
        },
        Cell::Blob { v } => match decoded(encode_utf8(v@)) {
            Some(bytes) => r matches Ok(BindValue::Blob { v: b }) && b@ == bytes,
            None => r matches Err(why) && why@ == "blob parameter is not base64"@,
        },
    }
}

/// The value to bind for a cell.
pub fn bind_value(cell: &Cell) -> (r: Result<BindValue, String>)
    ensures
        is_bind_of(*cell, r),
{
    match cell {
        Cell::Null => Ok(BindValue::Null),
        Cell::Int { v } => Ok(BindValue::Int { v: *v }),
        Cell::Real { v } => Ok(BindValue::Real { bits: v.bits }),
        Cell::Text { v } => match check_c_text(v.as_str()) {
            Ok(_) => Ok(BindValue::Text { v: v.clone() }),
            Err(why) => Err(why),
        },
        Cell::Blob { v } => match decode_base64(v.as_str()) {
            Ok(bytes) => Ok(BindValue::Blob { v: bytes }),
            Err(_) => Err(copy_text("blob parameter is not base64")),
        },
    }
}

/// The error that SQLite reports; one without a code is a general error.
pub fn sqlite_error(code: i32, message: Option<String>) -> (r: (i32, String))
    ensures
        r.0 == if code == 0 {
            1
        } else {
            code as int
        },
        r.1@ == match message {
            Some(m) => m@,
            None => "sqlite error"@,
        },
{
    let code: i32 = if code == 0 {
        1
    } else {
        code
    };
    match message {
        Some(m) => (code, m),
        None => (code, copy_text("sqlite error")),
    }
}

/// Whether there is anything but whitespace in the text behind a position. A
/// position inside a character counts as something.
pub open spec fn has_text_behind(sql: Seq<char>, tail: int) -> bool {
    let bytes = encode_utf8(sql);
    !is_char_boundary(bytes, tail) || !is_blank(decode_utf8(bytes.skip(tail)))
}

/// Whether there is anything but whitespace in the text behind a position.
pub fn tail_has_sql(sql: &str, tail: usize) -> (r: bool)
    requires
        tail <= encode_utf8(sql@).len(),
    ensures
        r == has_text_behind(sql@, tail as int),
{
    proof {
        encode_utf8_valid_utf8(sql@);
    }
    if !sql.is_char_boundary(tail) {
        return true;
    }
    let rest = sql.split_at(tail).1;
    proof {
        let bytes = encode_utf8(sql@);
        assert(bytes.skip(tail as int) == bytes.subrange(tail as int, bytes.len() as int));
        encode_utf8_decode_utf8(rest@);
    }
    let v = chars_of(rest);
    let mut i: usize = 0;
    while i < v.len()
        invariant
            v@ == rest@,
            has_text_behind(sql@, tail as int) == !is_blank(rest@),
            i <= v.len(),
            forall|j: int| 0 <= j < i ==> is_space(#[trigger] v[j]),
        decreases v.len() - i,
    {
        if !space(v[i]) {
            assert(!is_blank(rest@));
            return true;
        }
        i = i + 1;
    }
    false
}

// ---------------------------------------------------------------- script

/// What the run of a script waits for.
#[derive(Debug, Clone, Copy, PartialEq, Eq, Structural)]
pub enum Phase {
    /// The next statement is being compiled.
    Compiling,
    /// The parameter with this position is being bound.
    Binding { at: usize },
    /// The names of the columns are being read.
    Naming,
    /// The statement is being stepped.
    Stepping,
    /// A row is being read.
    Reading,
    /// An error is being read.
    Failing,
    /// The run is over.
    Over,
}

/// What happened on the connection.
#[derive(Debug)]
pub enum ScriptEvent {
    /// Compiling gave this result code. Where it is `SQLITE_OK`: whether there
    /// is a statement, how many columns it has, and where its tail begins.
    Compiled { rc: i32, statement: bool, columns: i32, tail: Option<usize> },
    /// Binding gave this result code.
    Bound { rc: i32 },
    /// The names of the columns; one that is missing is missing here.
    Named { names: Vec<Option<String>> },
    /// Stepping gave this result code.
    Stepped { rc: i32 },
    /// The values of a row.
    Row { cells: Vec<Cell> },
    /// What the connection says of its error.
    Failed { code: i32, message: Option<String> },
}

/// What to do on the connection.
#[derive(Debug)]
pub enum ScriptAction {
    /// Let go of the statement, if there is one, and compile the text from this
    /// byte on.
    Compile { offset: usize },
    /// Bind the value to the parameter with this index.
    Bind { index: i32, value: BindValue },
    /// Read the names of this many columns.
    ReadNames { count: i32 },
    /// Step the statement.
    Step,
    /// Read the values of this many columns.
    ReadRow { count: i32 },
    /// Ask the connection for its error.
    ReadError,
    /// Let go of the statement, if there is one. The run is over.
    Finish,
    /// The event does not belong here.
    Unexpected,
}

/// The run of a script.
pub struct ScriptState {
    pub sql: Seq<char>,
    pub params: Seq<Param>,
    pub columns: Seq<Seq<char>>,
    pub rows: Seq<Vec<Cell>>,
    /// Where the text of the statement at hand begins.
    pub offset: usize,
    /// Where the text behind it begins.
    pub tail: Option<usize>,
    /// How many columns the statement at hand has.
    pub width: i32,
    pub phase: Phase,
    pub error: Option<(i32, Seq<char>)>,
}

/// The name of a column; one without a name is called after its position.
pub open spec fn column_title(name: Option<String>, i: int) -> Seq<char> {
    match name {
        Some(n) => n@,
        None => "col"@ + decimal(i as nat),
    }
}

/// The names of the columns.
pub open spec fn column_titles(names: Seq<Option<String>>) -> Seq<Seq<char>> {
    Seq::new(names.len(), |i: int| column_title(names[i], i))
}

/// The message for a value that could not be bound.
pub open spec fn bind_failure(index: i32, rc: i32) -> Seq<char> {
    "bind "@ + decimal_int(index as int) + " failed ("@ + decimal_int(rc as int) + ")"@
}

/// Whether the action is `want`, a bound value compared by what is in it.
pub open spec fn same_action(action: ScriptAction, want: WantedAction) -> bool {
    match want {
        WantedAction::Bind { param } => action matches ScriptAction::Bind { index, value } && index
            == param.index && is_bind_of(param.value, Ok(value)),
        WantedAction::Exactly { action: a } => action == a,
    }
}

/// An action, described.
pub enum WantedAction {
    /// Bind the parameter.
    Bind { param: Param },
    Exactly { action: ScriptAction },
}

impl ScriptState {
    /// The run ends with an error.
    pub open spec fn fail(self, code: i32, message: Seq<char>) -> (ScriptState, WantedAction) {
        (
            ScriptState { phase: Phase::Over, error: Some((code, message)), ..self },
            WantedAction::Exactly { action: ScriptAction::Finish },
        )
    }

    /// The run ends.
    pub open spec fn finish(self) -> (ScriptState, WantedAction) {
        (
            ScriptState { phase: Phase::Over, ..self },
            WantedAction::Exactly { action: ScriptAction::Finish },
        )
    }

    /// The state before the first statement.
    pub open spec fn begin(sql: Seq<char>, params: Seq<Param>) -> (ScriptState, WantedAction) {
        let s = ScriptState {
            sql,
            params,
            columns: seq![],
            rows: seq![],
            offset: 0,
            tail: None,
            width: 0,
            phase: Phase::Compiling,
            error: None,
        };
        if fits_c(sql) {
            (s, WantedAction::Exactly { action: ScriptAction::Compile { offset: 0 } })
        } else {
            s.fail(1, zero_byte_message(encode_utf8(sql)))
        }
    }

    /// The statement is ready to be stepped, once its columns have names. Only
    /// the first statement with columns gives names.
    pub open spec fn bound(self) -> (ScriptState, WantedAction) {
        if self.columns.len() == 0 && self.width > 0 {
            (
                ScriptState { phase: Phase::Naming, ..self },
                WantedAction::Exactly { action: ScriptAction::ReadNames { count: self.width } },
            )
        } else {
            (
                ScriptState { phase: Phase::Stepping, ..self },
                WantedAction::Exactly { action: ScriptAction::Step },
            )
        }
    }

    /// The parameter at this position is bound next, if there is one.
    pub open spec fn bind(self, at: usize) -> (ScriptState, WantedAction) {
        if at >= self.params.len() {
            self.bound()
        } else {
            let p = self.params[at as int];
            match p.value {
                Cell::Text { v } if !fits_c(v@) => self.fail(
                    1,
                    zero_byte_message(encode_utf8(v@)),
                ),
                Cell::Blob { v } if decoded(encode_utf8(v@)) is None => self.fail(
                    1,
                    "blob parameter is not base64"@,
                ),
                _ => (
                    ScriptState { phase: Phase::Binding { at }, ..self },
                    WantedAction::Bind { param: p },
                ),
            }
        }
    }

    /// The statement at hand is done. The next one is compiled, if there is
    /// text behind it; with parameters there may be none.
    pub open spec fn next(self) -> (ScriptState, WantedAction) {
        match self.tail {
            Some(tail) if tail < encode_utf8(self.sql).len() => if self.params.len() > 0 {
                if has_text_behind(self.sql, tail as int) {
                    self.fail(1, "bound parameters require a single statement"@)
                } else {
                    self.finish()
                }
            } else if tail <= self.offset {
                self.finish()
            } else {
                (
                    ScriptState { offset: tail, phase: Phase::Compiling, ..self },
                    WantedAction::Exactly { action: ScriptAction::Compile { offset: tail } },
                )
            },
            _ => self.finish(),
        }
    }

    /// What an event does.
    pub open spec fn step(self, event: ScriptEvent) -> (ScriptState, WantedAction) {
        match (self.phase, event) {
            (Phase::Compiling, ScriptEvent::Compiled { rc, statement, columns, tail }) => if rc
                != SQLITE_OK {
                (
                    ScriptState { phase: Phase::Failing, ..self },
                    WantedAction::Exactly { action: ScriptAction::ReadError },
                )
            } else if !statement {
                self.finish()
            } else {
                ScriptState { width: columns, tail, ..self }.bind(0)
            },
            (Phase::Binding { at }, ScriptEvent::Bound { rc }) => if rc != SQLITE_OK {
                self.fail(1, bind_failure(self.params[at as int].index, rc))
            } else {
                self.bind((at + 1) as usize)
            },
            (Phase::Naming, ScriptEvent::Named { names }) => (
                ScriptState { columns: column_titles(names@), phase: Phase::Stepping, ..self },
                WantedAction::Exactly { action: ScriptAction::Step },
            ),
            (Phase::Stepping, ScriptEvent::Stepped { rc }) => if rc == SQLITE_ROW {
                (
                    ScriptState { phase: Phase::Reading, ..self },
                    WantedAction::Exactly { action: ScriptAction::ReadRow { count: self.width } },
                )
            } else if rc == SQLITE_DONE {
                self.next()
            } else {
                (
                    ScriptState { phase: Phase::Failing, ..self },
                    WantedAction::Exactly { action: ScriptAction::ReadError },
                )
            },
            (Phase::Reading, ScriptEvent::Row { cells }) => (
                ScriptState { rows: self.rows.push(cells), phase: Phase::Stepping, ..self },
                WantedAction::Exactly { action: ScriptAction::Step },
            ),
            (Phase::Failing, ScriptEvent::Failed { code, message }) => self.fail(
                if code == 0 {
                    1
                } else {
                    code
                },
                match message {
                    Some(m) => m@,
                    None => "sqlite error"@,
                },
            ),
            _ => (self, WantedAction::Exactly { action: ScriptAction::Unexpected }),
        }
    }

    /// What holds of every run: the position of a parameter is one.
    pub open spec fn wf(self) -> bool {
        self.phase matches Phase::Binding { at } ==> at < self.params.len()
    }
}

/// The run of the statements of one request.
#[derive(Debug)]
pub struct Script {
    sql: String,
    params: Vec<Param>,
    columns: Vec<String>,
    rows: Vec<Vec<Cell>>,
    offset: usize,
    tail: Option<usize>,
    width: i32,
    phase: Phase,
    error: Option<(i32, String)>,
}

impl View for Script {
    type V = ScriptState;

    closed spec fn view(&self) -> ScriptState {
        ScriptState {
            sql: self.sql@,
            params: self.params@,
            columns: texts(self.columns@),
            rows: self.rows@,
            offset: self.offset,
            tail: self.tail,
            width: self.width,
            phase: self.phase,
            error: match self.error {
                Some((code, message)) => Some((code, message@)),
                None => None,
            },
        }
    }
}

impl Script {
    /// The run of a request, and what to do first.
    pub fn begin(sql: String, params: Vec<Param>) -> (r: (Script, ScriptAction))
        ensures
            r.0@ == ScriptState::begin(sql@, params@).0,
            same_action(r.1, ScriptState::begin(sql@, params@).1),
            r.0@.wf(),
    {
        let checked = check_c_text(sql.as_str());
        let mut s = Script {
            sql,
            params,
            columns: Vec::new(),
            rows: Vec::new(),
            offset: 0,
            tail: None,
            width: 0,
            phase: Phase::Compiling,
            error: None,
        };
        assert(s@.columns == Seq::<Seq<char>>::empty());
        assert(s@.rows == Seq::<Vec<Cell>>::empty());
        match checked {
            Ok(_) => (s, ScriptAction::Compile { offset: 0 }),
            Err(why) => {
                let action = s.fail(1, why);
                (s, action)
            },
        }
    }

    /// The text of the request.
    pub fn sql(&self) -> (r: &str)
        ensures
            r@ == self@.sql,
    {
        self.sql.as_str()
    }

    fn fail(&mut self, code: i32, message: String) -> (action: ScriptAction)
        ensures
            final(self)@ == old(self)@.fail(code, message@).0,
            action == ScriptAction::Finish,
    {
        self.phase = Phase::Over;
        self.error = Some((code, message));
        ScriptAction::Finish
    }

    fn finish(&mut self) -> (action: ScriptAction)
        ensures
            final(self)@ == old(self)@.finish().0,
            action == ScriptAction::Finish,
    {
        self.phase = Phase::Over;
        ScriptAction::Finish
    }

    fn bound(&mut self) -> (action: ScriptAction)
        ensures
            final(self)@ == old(self)@.bound().0,
            same_action(action, old(self)@.bound().1),
            final(self)@.wf(),
    {
        if self.columns.len() == 0 && self.width > 0 {
            self.phase = Phase::Naming;
            ScriptAction::ReadNames { count: self.width }
        } else {
            self.phase = Phase::Stepping;
            ScriptAction::Step
        }
    }

    fn bind(&mut self, at: usize) -> (action: ScriptAction)
        ensures
            final(self)@ == old(self)@.bind(at).0,
            same_action(action, old(self)@.bind(at).1),
            final(self)@.wf(),
    {
        if at >= self.params.len() {
            return self.bound();
        }
        match bind_value(&self.params[at].value) {
            Ok(value) => {
                let index = self.params[at].index;
                self.phase = Phase::Binding { at };
                ScriptAction::Bind { index, value }
            },
            Err(why) => self.fail(1, why),
        }
    }

    fn next(&mut self) -> (action: ScriptAction)
        requires
            old(self)@.wf(),
        ensures
            final(self)@ == old(self)@.next().0,
            same_action(action, old(self)@.next().1),
            final(self)@.wf(),
    {
        match self.tail {
            Some(tail) => {
                if tail >= self.sql.as_str().as_bytes().len() {
                    self.finish()
                } else if self.params.len() > 0 {
                    if tail_has_sql(self.sql.as_str(), tail) {
                        self.fail(1, copy_text("bound parameters require a single statement"))
                    } else {
                        self.finish()
                    }
                } else if tail <= self.offset {
                    self.finish()
                } else {
                    self.offset = tail;
                    self.phase = Phase::Compiling;
                    ScriptAction::Compile { offset: tail }
                }
            },
            None => self.finish(),
        }
    }

    /// Takes an event and says what to do.
    pub fn step(&mut self, event: ScriptEvent) -> (action: ScriptAction)
        requires
            old(self)@.wf(),
        ensures
            final(self)@ == old(self)@.step(event).0,
            same_action(action, old(self)@.step(event).1),
            final(self)@.wf(),
    {
        match (self.phase, event) {
            (Phase::Compiling, ScriptEvent::Compiled { rc, statement, columns, tail }) => {
                if rc != SQLITE_OK {
                    self.phase = Phase::Failing;
                    ScriptAction::ReadError
                } else if !statement {
                    self.finish()
                } else {
                    self.width = columns;
                    self.tail = tail;
                    self.bind(0)
                }
            },
            (Phase::Binding { at }, ScriptEvent::Bound { rc }) => {
                if rc != SQLITE_OK {
                    let mut why = copy_text("bind ");
                    why.append(i64_text(self.params[at].index as i64).as_str());
                    why.append(" failed (");
                    why.append(i64_text(rc as i64).as_str());
                    why.append(")");
                    self.fail(1, why)
                } else {
                    assert(at < self.params.len());
                    self.bind(at + 1)
                }
            },
            (Phase::Naming, ScriptEvent::Named { names }) => {
                self.columns = titles(&names);
                self.phase = Phase::Stepping;
                ScriptAction::Step
            },
            (Phase::Stepping, ScriptEvent::Stepped { rc }) => {
                if rc == SQLITE_ROW {
                    self.phase = Phase::Reading;
                    ScriptAction::ReadRow { count: self.width }
                } else if rc == SQLITE_DONE {
                    self.next()
                } else {
                    self.phase = Phase::Failing;
                    ScriptAction::ReadError
                }
            },
            (Phase::Reading, ScriptEvent::Row { cells }) => {
                self.rows.push(cells);
                self.phase = Phase::Stepping;
                ScriptAction::Step
            },
            (Phase::Failing, ScriptEvent::Failed { code, message }) => {
                let (code, message) = sqlite_error(code, message);
                self.fail(code, message)
            },
            _ => ScriptAction::Unexpected,
        }
    }

    /// The answer to the request, once the run is over. A run that failed
    /// answers with its error and no rows.
    pub fn response(self, status: Status) -> (r: Response)
        ensures
            is_exec_answer(self@, status, r),
    {
        match self.error {
            None => Response {
                ok: true,
                message: String::new(),
                code: 0,
                columns: self.columns,
                rows: self.rows,
                changes: status.changes,
                last_insert_rowid: status.last_insert_rowid,
                autocommit: status.autocommit,
                tail: 0,
                param_count: 0,
                param_names: Vec::new(),
                decltypes: Vec::new(),
                total_changes: status.total_changes,
                empty: false,
            },
            Some((code, message)) => failed_response(code, message, status),
        }
    }
}

fn titles(names: &Vec<Option<String>>) -> (out: Vec<String>)
    ensures
        texts(out@) == column_titles(names@),
{
    let mut out: Vec<String> = Vec::new();
    let mut i: usize = 0;
    while i < names.len()
        invariant
            i <= names.len(),
            texts(out@) == column_titles(names@).take(i as int),
        decreases names.len() - i,
    {
        let ghost before = out@;
        match &names[i] {
            Some(n) => out.push(n.clone()),
            None => {
                let mut n = copy_text("col");
                n.append(u64_text(i as u64).as_str());
                out.push(n);
            },
        }
        assert(texts(out@) == texts(before).push(column_title(names@[i as int], i as int)));
        assert(column_titles(names@).take(i + 1) == column_titles(names@).take(i as int).push(
            column_title(names@[i as int], i as int),
        ));
        i = i + 1;
    }
    assert(column_titles(names@).take(i as int) == column_titles(names@));
    out
}

/// What a connection says of itself after a request.
#[derive(Debug, Clone, Copy)]
pub struct Status {
    pub changes: i32,
    pub last_insert_rowid: i64,
    pub autocommit: bool,
    pub total_changes: i32,
}

/// Whether `r` is the answer for a request that failed.
pub open spec fn is_failed_answer(
    code: i32,
    message: Seq<char>,
    status: Status,
    r: Response,
) -> bool {
    &&& !r.ok
    &&& r.code == code
    &&& r.message@ == message
    &&& r.columns@.len() == 0
    &&& r.rows@.len() == 0
    &&& r.changes == 0
    &&& r.last_insert_rowid == status.last_insert_rowid
    &&& r.autocommit == status.autocommit
    &&& r.total_changes == status.total_changes
    &&& no_statement(r)
}

/// Whether `r` is the answer of a finished run.
pub open spec fn is_exec_answer(s: ScriptState, status: Status, r: Response) -> bool {
    match s.error {
        Some((code, message)) => is_failed_answer(code, message, status, r),
        None => {
            &&& r.ok
            &&& r.code == 0
            &&& r.message@.len() == 0
            &&& texts(r.columns@) == s.columns
            &&& r.rows@ == s.rows
            &&& r.changes == status.changes
            &&& r.last_insert_rowid == status.last_insert_rowid
            &&& r.autocommit == status.autocommit
            &&& r.total_changes == status.total_changes
            &&& no_statement(r)
        },
    }
}

fn failed_response(code: i32, message: String, status: Status) -> (r: Response)
    ensures
        is_failed_answer(code, message@, status, r),
{
    Response {
        ok: false,
        message,
        code,
        columns: Vec::new(),
        rows: Vec::new(),
        changes: 0,
        last_insert_rowid: status.last_insert_rowid,
        autocommit: status.autocommit,
        tail: 0,
        param_count: 0,
        param_names: Vec::new(),
        decltypes: Vec::new(),
        total_changes: status.total_changes,
        empty: false,
    }
}

/// Where the text behind the compiled statements begins only ever moves on, so
/// a script comes to its end.
pub proof fn compiling_moves_on(s: ScriptState, event: ScriptEvent, offset: usize)
    requires
        s.step(event).1 == (WantedAction::Exactly { action: ScriptAction::Compile { offset } }),
    ensures
        s.offset < offset < encode_utf8(s.sql).len(),
        s.step(event).0.offset == offset,
{
}

/// A request with parameters compiles one statement and no more.
pub proof fn parameters_take_one_statement(s: ScriptState, event: ScriptEvent)
    requires
        s.params.len() > 0,
    ensures
        !(s.step(event).1 matches WantedAction::Exactly { action: ScriptAction::Compile { .. } }),
{
}

/// The columns of an answer are named once, by the first statement that has any.
pub proof fn columns_are_named_once(s: ScriptState, event: ScriptEvent)
    ensures
        ({
            let next = s.step(event).0;
            &&& s.phase != Phase::Naming ==> next.columns == s.columns
            &&& s.phase != Phase::Naming && next.phase == Phase::Naming ==> s.columns.len() == 0
        }),
{
}

/// The run of a request after some events.
pub open spec fn script_after(
    sql: Seq<char>,
    params: Seq<Param>,
    events: Seq<ScriptEvent>,
) -> ScriptState
    decreases events.len(),
{
    if events.len() == 0 {
        ScriptState::begin(sql, params).0
    } else {
        script_after(sql, params, events.drop_last()).step(events.last()).0
    }
}

/// Whether every event is one that was asked for.
pub open spec fn all_asked_for(
    sql: Seq<char>,
    params: Seq<Param>,
    events: Seq<ScriptEvent>,
) -> bool
    decreases events.len(),
{
    events.len() > 0 ==> {
        &&& all_asked_for(sql, params, events.drop_last())
        &&& script_after(sql, params, events.drop_last()).step(events.last()).1 != (
        WantedAction::Exactly { action: ScriptAction::Unexpected })
    }
}

/// The rows among the events.
pub open spec fn rows_read(events: Seq<ScriptEvent>) -> Seq<Vec<Cell>>
    decreases events.len(),
{
    if events.len() == 0 {
        seq![]
    } else {
        match events.last() {
            ScriptEvent::Row { cells } => rows_read(events.drop_last()).push(cells),
            _ => rows_read(events.drop_last()),
        }
    }
}

/// The answer to a request that went well holds every row that was read, of all
/// its statements, in the order in which they came.
pub proof fn an_answer_holds_every_row(
    sql: Seq<char>,
    params: Seq<Param>,
    events: Seq<ScriptEvent>,
    status: Status,
    r: Response,
)
    requires
        all_asked_for(sql, params, events),
        is_exec_answer(script_after(sql, params, events), status, r),
    ensures
        r.ok ==> r.rows@ == rows_read(events),
        r.ok <==> script_after(sql, params, events).error is None,
{
    rows_are_those_read(sql, params, events);
}

proof fn rows_are_those_read(sql: Seq<char>, params: Seq<Param>, events: Seq<ScriptEvent>)
    requires
        all_asked_for(sql, params, events),
    ensures
        script_after(sql, params, events).rows == rows_read(events),
    decreases events.len(),
{
    if events.len() > 0 {
        rows_are_those_read(sql, params, events.drop_last());
    }
}

/// Errors end a run: afterwards no event does anything.
pub proof fn an_ended_run_stays_ended(s: ScriptState, event: ScriptEvent)
    requires
        s.phase == Phase::Over,
    ensures
        s.step(event).0 == s,
{
}

// --------------------------------------------------------------- prepare

/// What compiling the first statement of a text came to.
#[derive(Debug)]
pub enum Compiled {
    /// It failed; this is what the connection says.
    Failed { code: i32, message: Option<String> },
    /// There is no statement, only comments or whitespace up to this byte.
    Nothing { tail: usize },
    /// There is a statement. A column or a parameter without a name, and a
    /// column without a declared type, has nothing in its place.
    Statement {
        tail: usize,
        columns: Vec<Option<String>>,
        decltypes: Vec<Option<String>>,
        param_names: Vec<Option<String>>,
    },
}

/// What compiling comes to where the text cannot be handed over at all.
pub fn unfit_text(sql: &str) -> (r: Option<Compiled>)
    ensures
        match r {
            None => fits_c(sql@),
            Some(c) => !fits_c(sql@) && (c matches Compiled::Failed { code, message: Some(why) }
                && code == 1 && why@ == zero_byte_message(encode_utf8(sql@))),
        },
{
    match check_c_text(sql) {
        Ok(_) => None,
        Err(why) => Some(Compiled::Failed { code: 1, message: Some(why) }),
    }
}

/// The names, with nothing in place of one that is missing.
pub open spec fn or_empty(names: Seq<Option<String>>) -> Seq<Seq<char>> {
    Seq::new(
        names.len(),
        |i: int|
            match names[i] {
                Some(n) => n@,
                None => seq![],
            },
    )
}

fn or_empty_of(names: &Vec<Option<String>>) -> (out: Vec<String>)
    ensures
        texts(out@) == or_empty(names@),
        out.len() == names.len(),
{
    let mut out: Vec<String> = Vec::new();
    let mut i: usize = 0;
    while i < names.len()
        invariant
            i <= names.len(),
            out.len() == i,
            texts(out@) == or_empty(names@).take(i as int),
        decreases names.len() - i,
    {
        let ghost before = out@;
        match &names[i] {
            Some(n) => out.push(n.clone()),
            None => out.push(String::new()),
        }
        assert(texts(out@) == texts(before).push(or_empty(names@)[i as int]));
        assert(or_empty(names@).take(i + 1) == or_empty(names@).take(i as int).push(
            or_empty(names@)[i as int],
        ));
        i = i + 1;
    }
    assert(or_empty(names@).take(i as int) == or_empty(names@));
    out
}

/// Whether `r` is the answer to a request to compile.
pub open spec fn is_prepare_answer(c: Compiled, status: Status, r: Response) -> bool {
    match c {
        Compiled::Failed { code, message } => is_failed_answer(
            if code == 0 {
                1
            } else {
                code
            },
            match message {
                Some(m) => m@,
                None => "sqlite error"@,
            },
            status,
            r,
        ),
        _ => {
            &&& r.ok
            &&& r.code == 0
            &&& r.message@.len() == 0
            &&& r.rows@.len() == 0
            &&& r.changes == status.changes
            &&& r.last_insert_rowid == status.last_insert_rowid
            &&& r.autocommit == status.autocommit
            &&& r.total_changes == status.total_changes
            &&& match c {
                Compiled::Statement { tail, columns, decltypes, param_names } => {
                    &&& !r.empty
                    &&& r.tail == tail
                    &&& texts(r.columns@) == column_titles(columns@)
                    &&& texts(r.decltypes@) == or_empty(decltypes@)
                    &&& texts(r.param_names@) == or_empty(param_names@)
                    &&& r.param_count == param_names@.len() as i32
                },
                Compiled::Nothing { tail } => {
                    &&& r.empty
                    &&& r.tail == tail
                    &&& r.columns@.len() == 0
                    &&& r.decltypes@.len() == 0
                    &&& r.param_names@.len() == 0
                    &&& r.param_count == 0
                },
                _ => true,
            }
        },
    }
}

/// The answer to a request to compile.
pub fn prepare_response(c: Compiled, status: Status) -> (r: Response)
    ensures
        is_prepare_answer(c, status, r),
{
    match c {
        Compiled::Failed { code, message } => {
            let (code, message) = sqlite_error(code, message);
            failed_response(code, message, status)
        },
        Compiled::Nothing { tail } => Response {
            ok: true,
            message: String::new(),
            code: 0,
            columns: Vec::new(),
            rows: Vec::new(),
            changes: status.changes,
            last_insert_rowid: status.last_insert_rowid,
            autocommit: status.autocommit,
            tail,
            param_count: 0,
            param_names: Vec::new(),
            decltypes: Vec::new(),
            total_changes: status.total_changes,
            empty: true,
        },
        Compiled::Statement { tail, columns, decltypes, param_names } => Response {
            ok: true,
            message: String::new(),
            code: 0,
            columns: titles(&columns),
            rows: Vec::new(),
            changes: status.changes,
            last_insert_rowid: status.last_insert_rowid,
            autocommit: status.autocommit,
            tail,
            param_count: param_names.len() as i32,
            param_names: or_empty_of(&param_names),
            decltypes: or_empty_of(&decltypes),
            total_changes: status.total_changes,
            empty: false,
        },
    }
}

} // verus!
