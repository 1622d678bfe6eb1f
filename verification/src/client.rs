//! The programs that use a database through the SQLite interface: a single
//! call, and a session that is driven line by line.
use vstd::prelude::*;

use crate::ctext::{sql_from, sql_text};
use crate::number::{decimal_int, i64_text};
use crate::runner::{SQLITE_DONE, SQLITE_OK, SQLITE_ROW};
use crate::text::{
    begins_with, chars_of, copy_text, find_char, index_of, index_of_is_first, is_space, skip_space,
    string_of, text_begins_with, texts, trim_start, upper, upper_text,
};

verus! {

// ------------------------------------------------------------------ errors

/// What is said of a call of the SQLite interface that failed. Without a
/// message something general is said.
pub open spec fn failed_call(call: Seq<char>, rc: i32, message: Option<Seq<char>>) -> Seq<char> {
    call + " ("@ + decimal_int(rc as int) + "): "@ + match message {
        Some(m) => m,
        None => "sqlite error"@,
    }
}

/// What a message that may be missing says.
pub open spec fn maybe_message(message: Option<&str>) -> Option<Seq<char>> {
    match message {
        Some(m) => Some(m@),
        None => None,
    }
}

/// What is said of a call of the SQLite interface that failed.
pub fn call_error(call: &str, rc: i32, message: Option<&str>) -> (out: String)
    ensures
        out@ == failed_call(call@, rc, maybe_message(message)),
{
    let mut out = copy_text(call);
    out.append(" (");
    out.append(i64_text(rc as i64).as_str());
    out.append("): ");
    match message {
        Some(m) => out.append(m),
        None => out.append("sqlite error"),
    }
    out
}

/// What is said where a database could not be opened: what its connection says,
/// where there is one.
pub fn open_error(rc: i32, message: Option<String>) -> (out: String)
    ensures
        out@ == match message {
            Some(m) => m@,
            None => "sqlite3_open failed ("@ + decimal_int(rc as int) + ")"@,
        },
{
    match message {
        Some(m) => m,
        None => {
            let mut out = copy_text("sqlite3_open failed (");
            out.append(i64_text(rc as i64).as_str());
            out.append(")");
            out
        },
    }
}

/// What running a script came to.
pub fn exec_outcome(rc: i32, message: Option<&str>) -> (r: Result<(), String>)
    ensures
        match r {
            Ok(_) => rc == SQLITE_OK,
            Err(e) => rc != SQLITE_OK && e@ == failed_call(
                "sqlite3_exec"@,
                rc,
                maybe_message(message),
            ),
        },
{
    if rc == SQLITE_OK {
        Ok(())
    } else {
        Err(call_error("sqlite3_exec", rc, message))
    }
}

// ------------------------------------------------------------------- query

/// What a query waits for.
#[derive(Debug, Clone, Copy, PartialEq, Eq, Structural)]
pub enum QueryPhase {
    Preparing,
    Stepping,
    Reading,
    Over,
}

/// What happened to a query. A message is given where the code is an error.
#[derive(Debug)]
pub enum QueryEvent {
    Prepared { rc: i32, message: Option<String> },
    Stepped { rc: i32, message: Option<String> },
    /// The values of a row; one that is null is missing.
    Row { values: Vec<Option<Vec<u8>>> },
}

/// What a query does next.
#[derive(Debug)]
pub enum QueryAction {
    /// Step the statement.
    Step,
    /// Read the columns of the row.
    ReadRow,
    /// Let go of the statement, if there is one. The query is over.
    Finish { result: Result<Vec<Vec<String>>, String> },
    /// The event does not belong here.
    Unexpected,
}

/// What a query does next.
pub enum QueryDeed {
    Step,
    ReadRow,
    Finish { result: Result<Seq<Seq<Seq<char>>>, Seq<char>> },
    Unexpected,
}

/// What stands in the rows.
pub open spec fn row_views(rows: Seq<Vec<String>>) -> Seq<Seq<Seq<char>>> {
    rows.map_values(|row: Vec<String>| texts(row@))
}

impl View for QueryAction {
    type V = QueryDeed;

    open spec fn view(&self) -> QueryDeed {
        match self {
            QueryAction::Step => QueryDeed::Step,
            QueryAction::ReadRow => QueryDeed::ReadRow,
            QueryAction::Finish { result } => QueryDeed::Finish {
                result: match result {
                    Ok(rows) => Ok(row_views(rows@)),
                    Err(e) => Err(e@),
                },
            },
            QueryAction::Unexpected => QueryDeed::Unexpected,
        }
    }
}

/// The text of a value; one that is null is empty.
pub open spec fn value_text(value: Option<Vec<u8>>) -> Seq<char> {
    match value {
        Some(bytes) => sql_text(Some(bytes@)),
        None => seq![],
    }
}

/// The texts of the values of a row.
pub open spec fn value_texts(values: Seq<Option<Vec<u8>>>) -> Seq<Seq<char>> {
    values.map_values(|v: Option<Vec<u8>>| value_text(v))
}

fn texts_of_values(values: &Vec<Option<Vec<u8>>>) -> (out: Vec<String>)
    ensures
        texts(out@) == value_texts(values@),
{
    let mut out: Vec<String> = Vec::new();
    let mut i: usize = 0;
    while i < values.len()
        invariant
            i <= values.len(),
            texts(out@) == value_texts(values@).take(i as int),
        decreases values.len() - i,
    {
        let ghost before = texts(out@);
        let text: String = match &values[i] {
            Some(bytes) => sql_from(Some(bytes.as_slice())),
            None => String::new(),
        };
        assert(text@ == value_text(values@[i as int]));
        out.push(text);
        assert(texts(out@) == before.push(text@));
        assert(value_texts(values@).take(i + 1) == value_texts(values@).take(i as int).push(
            value_text(values@[i as int]),
        ));
        i = i + 1;
    }
    assert(value_texts(values@).take(i as int) == value_texts(values@));
    out
}

/// What a message that may be missing says.
pub open spec fn message_text(message: Option<String>) -> Option<Seq<char>> {
    match message {
        Some(m) => Some(m@),
        None => None,
    }
}

/// The state of a query.
pub struct QueryState {
    pub rows: Seq<Seq<Seq<char>>>,
    pub phase: QueryPhase,
}

impl QueryState {
    /// The state while the statement is being compiled.
    pub open spec fn begin() -> QueryState {
        QueryState { rows: seq![], phase: QueryPhase::Preparing }
    }

    /// The query is over.
    pub open spec fn finish(self, result: Result<Seq<Seq<Seq<char>>>, Seq<char>>) -> (
        QueryState,
        QueryDeed,
    ) {
        (QueryState { phase: QueryPhase::Over, ..self }, QueryDeed::Finish { result })
    }

    /// What an event does.
    pub open spec fn step(self, event: QueryEvent) -> (QueryState, QueryDeed) {
        match (self.phase, event) {
            (QueryPhase::Preparing, QueryEvent::Prepared { rc, message }) => if rc == SQLITE_OK {
                (QueryState { phase: QueryPhase::Stepping, ..self }, QueryDeed::Step)
            } else {
                self.finish(Err(failed_call("sqlite3_prepare_v2"@, rc, message_text(message))))
            },
            (QueryPhase::Stepping, QueryEvent::Stepped { rc, message }) => if rc == SQLITE_ROW {
                (QueryState { phase: QueryPhase::Reading, ..self }, QueryDeed::ReadRow)
            } else if rc == SQLITE_DONE {
                self.finish(Ok(self.rows))
            } else {
                self.finish(Err(failed_call("sqlite3_step"@, rc, message_text(message))))
            },
            (QueryPhase::Reading, QueryEvent::Row { values }) => (
                QueryState {
                    rows: self.rows.push(value_texts(values@)),
                    phase: QueryPhase::Stepping,
                },
                QueryDeed::Step,
            ),
            _ => (self, QueryDeed::Unexpected),
        }
    }
}

/// A query.
#[derive(Debug)]
pub struct Query {
    rows: Vec<Vec<String>>,
    phase: QueryPhase,
}

impl View for Query {
    type V = QueryState;

    closed spec fn view(&self) -> QueryState {
        QueryState { rows: row_views(self.rows@), phase: self.phase }
    }
}

impl Query {
    /// A query whose statement is being compiled.
    pub fn begin() -> (q: Query)
        ensures
            q@ == QueryState::begin(),
    {
        let q = Query { rows: Vec::new(), phase: QueryPhase::Preparing };
        assert(q@.rows == Seq::<Seq<Seq<char>>>::empty());
        q
    }

    fn fail(&mut self, call: &str, rc: i32, message: Option<String>) -> (a: QueryAction)
        ensures
            final(self)@ == old(self)@.finish(
                Err(failed_call(call@, rc, message_text(message))),
            ).0,
            a@ == old(self)@.finish(Err(failed_call(call@, rc, message_text(message)))).1,
    {
        self.phase = QueryPhase::Over;
        let error = match &message {
            Some(m) => call_error(call, rc, Some(m.as_str())),
            None => call_error(call, rc, None),
        };
        QueryAction::Finish { result: Err(error) }
    }

    /// Takes an event and says what comes next.
    pub fn step(&mut self, event: QueryEvent) -> (a: QueryAction)
        ensures
            final(self)@ == old(self)@.step(event).0,
            a@ == old(self)@.step(event).1,
    {
        match (self.phase, event) {
            (QueryPhase::Preparing, QueryEvent::Prepared { rc, message }) => {
                if rc == SQLITE_OK {
                    self.phase = QueryPhase::Stepping;
                    QueryAction::Step
                } else {
                    self.fail("sqlite3_prepare_v2", rc, message)
                }
            },
            (QueryPhase::Stepping, QueryEvent::Stepped { rc, message }) => {
                if rc == SQLITE_ROW {
                    self.phase = QueryPhase::Reading;
                    QueryAction::ReadRow
                } else if rc == SQLITE_DONE {
                    self.phase = QueryPhase::Over;
                    QueryAction::Finish { result: Ok(copy_rows(&self.rows)) }
                } else {
                    self.fail("sqlite3_step", rc, message)
                }
            },
            (QueryPhase::Reading, QueryEvent::Row { values }) => {
                let row = texts_of_values(&values);
                let ghost before = row_views(self.rows@);
                self.rows.push(row);
                assert(row_views(self.rows@) == before.push(texts(row@)));
                self.phase = QueryPhase::Stepping;
                QueryAction::Step
            },
            _ => QueryAction::Unexpected,
        }
    }
}

fn copy_row(row: &Vec<String>) -> (out: Vec<String>)
    ensures
        texts(out@) == texts(row@),
{
    let mut out: Vec<String> = Vec::new();
    let mut i: usize = 0;
    while i < row.len()
        invariant
            i <= row.len(),
            texts(out@) == texts(row@).take(i as int),
        decreases row.len() - i,
    {
        let ghost before = texts(out@);
        out.push(row[i].clone());
        assert(texts(out@) == before.push(row@[i as int]@));
        assert(texts(row@).take(i + 1) == texts(row@).take(i as int).push(row@[i as int]@));
        i = i + 1;
    }
    assert(texts(row@).take(i as int) == texts(row@));
    out
}

fn copy_rows(rows: &Vec<Vec<String>>) -> (out: Vec<Vec<String>>)
    ensures
        row_views(out@) == row_views(rows@),
{
    let mut out: Vec<Vec<String>> = Vec::new();
    let mut i: usize = 0;
    while i < rows.len()
        invariant
            i <= rows.len(),
            row_views(out@) == row_views(rows@).take(i as int),
        decreases rows.len() - i,
    {
        let ghost before = row_views(out@);
        let row = copy_row(&rows[i]);
        out.push(row);
        assert(row_views(out@) == before.push(texts(row@)));
        assert(row_views(rows@).take(i + 1) == row_views(rows@).take(i as int).push(
            texts(rows@[i as int]@),
        ));
        i = i + 1;
    }
    assert(row_views(rows@).take(i as int) == row_views(rows@));
    out
}

// -------------------------------------------------------------- query laws

/// A query after some events, and what it does next.
pub open spec fn query_after(events: Seq<QueryEvent>) -> (QueryState, QueryDeed)
    decreases events.len(),
{
    if events.len() == 0 {
        (QueryState::begin(), QueryDeed::Unexpected)
    } else {
        query_after(events.drop_last()).0.step(events.last())
    }
}

/// Whether every event is one that the query waited for.
pub open spec fn all_query_events_awaited(events: Seq<QueryEvent>) -> bool
    decreases events.len(),
{
    events.len() > 0 ==> {
        &&& all_query_events_awaited(events.drop_last())
        &&& query_after(events).1 != QueryDeed::Unexpected
    }
}

/// The positions of the rows among the events.
pub open spec fn row_positions(events: Seq<QueryEvent>) -> Seq<int>
    decreases events.len(),
{
    if events.len() == 0 {
        seq![]
    } else if events.last() is Row {
        row_positions(events.drop_last()).push(events.len() - 1)
    } else {
        row_positions(events.drop_last())
    }
}

/// Whether the texts are those of the values: what stands in each value, and
/// nothing for one that is null.
pub open spec fn are_texts_of(values: Seq<Option<Vec<u8>>>, row: Seq<Seq<char>>) -> bool {
    &&& row.len() == values.len()
    &&& forall|c: int|
        0 <= c < row.len() ==> #[trigger] row[c] == match values[c] {
            Some(bytes) => sql_text(Some(bytes@)),
            None => Seq::<char>::empty(),
        }
}

/// Whether the event is that row.
pub open spec fn is_row_of(event: QueryEvent, row: Seq<Seq<char>>) -> bool {
    event matches QueryEvent::Row { values } && are_texts_of(values@, row)
}

/// Whether the rows are exactly the rows among the events, in their order.
pub open spec fn are_rows_of(events: Seq<QueryEvent>, rows: Seq<Seq<Seq<char>>>) -> bool {
    &&& rows.len() == row_positions(events).len()
    &&& forall|k: int|
        0 <= k < rows.len() ==> is_row_of(events[row_positions(events)[k]], #[trigger] rows[k])
}

proof fn positions_are_within(events: Seq<QueryEvent>)
    ensures
        forall|k: int|
            0 <= k < row_positions(events).len() ==> 0 <= #[trigger] row_positions(events)[k]
                < events.len(),
    decreases events.len(),
{
    if events.len() > 0 {
        let before = events.drop_last();
        positions_are_within(before);
        assert forall|k: int| 0 <= k < row_positions(events).len() implies 0
            <= #[trigger] row_positions(events)[k] < events.len() by {
            if k < row_positions(before).len() {
                assert(row_positions(events)[k] == row_positions(before)[k]);
            }
        }
    }
}

proof fn a_query_is_its_events(events: Seq<QueryEvent>)
    requires
        all_query_events_awaited(events),
    ensures
        ({
            let (s, d) = query_after(events);
            &&& are_rows_of(events, s.rows)
            &&& s.phase == QueryPhase::Preparing <==> events.len() == 0
            &&& s.phase == QueryPhase::Stepping ==> d == QueryDeed::Step
            &&& s.phase == QueryPhase::Reading ==> d == QueryDeed::ReadRow
            &&& s.phase == QueryPhase::Over ==> d is Finish
            &&& s.phase == QueryPhase::Stepping || s.phase == QueryPhase::Reading ==> forall|k: int|
                0 <= k < events.len() ==> query_went_well(#[trigger] events[k])
        }),
    decreases events.len(),
{
    if events.len() > 0 {
        let before = events.drop_last();
        a_query_is_its_events(before);
        positions_are_within(before);
        let s = query_after(before).0;
        let t = query_after(events).0;
        if events.last() is Row {
            assert(value_texts(events.last()->values@).len() == events.last()->values@.len());
        }
        assert forall|k: int| 0 <= k < t.rows.len() implies is_row_of(
            events[row_positions(events)[k]],
            #[trigger] t.rows[k],
        ) by {
            if k < s.rows.len() {
                assert(t.rows[k] == s.rows[k]);
                assert(row_positions(events)[k] == row_positions(before)[k]);
                assert(events[row_positions(before)[k]] == before[row_positions(before)[k]]);
            }
        }
        if t.phase == QueryPhase::Stepping || t.phase == QueryPhase::Reading {
            assert forall|k: int| 0 <= k < events.len() implies query_went_well(
                #[trigger] events[k],
            ) by {
                if k < before.len() {
                    assert(events[k] == before[k]);
                }
            }
        }
    }
}

/// Whether nothing went wrong.
pub open spec fn query_went_well(event: QueryEvent) -> bool {
    match event {
        QueryEvent::Prepared { rc, .. } => rc == 0,
        QueryEvent::Stepped { rc, .. } => rc == 100 || rc == 101,
        QueryEvent::Row { .. } => true,
    }
}

/// A query that finishes well gives exactly the rows among its events, all of
/// them and in the order in which they came, and it finishes well only after
/// everything went well and a step said that there are no more.
pub proof fn a_query_gives_every_row(events: Seq<QueryEvent>, rows: Seq<Seq<Seq<char>>>)
    requires
        all_query_events_awaited(events),
        query_after(events).1 == (QueryDeed::Finish { result: Ok(rows) }),
    ensures
        are_rows_of(events, rows),
        forall|k: int| 0 <= k < events.len() ==> query_went_well(#[trigger] events[k]),
        events.len() > 0,
        events.last() matches QueryEvent::Stepped { rc, .. } && rc == 101,
{
    a_query_is_its_events(events);
    if events.len() > 0 {
        a_query_is_its_events(events.drop_last());
        assert forall|k: int| 0 <= k < events.len() implies query_went_well(#[trigger] events[k]) by {
            if k < events.len() - 1 {
                assert(events.drop_last()[k] == events[k]);
            }
        }
    }
}

/// A query goes on as its events say: once compiled, and after each row, it is
/// stepped; a row that there is is read; at the end it finishes well, and where
/// anything fails it finishes with the call that failed, the code and the
/// message.
pub proof fn a_query_goes_on(events: Seq<QueryEvent>)
    requires
        all_query_events_awaited(events),
        events.len() > 0,
    ensures
        match events.last() {
            QueryEvent::Prepared { rc, message } => if rc == 0 {
                query_after(events).1 == QueryDeed::Step
            } else {
                query_after(events).1 == (QueryDeed::Finish {
                    result: Err(
                        "sqlite3_prepare_v2"@ + " ("@ + decimal_int(rc as int) + "): "@
                            + match message {
                            Some(m) => m@,
                            None => "sqlite error"@,
                        },
                    ),
                })
            },
            QueryEvent::Stepped { rc, message } => if rc == 100 {
                query_after(events).1 == QueryDeed::ReadRow
            } else if rc == 101 {
                query_after(events).1 matches QueryDeed::Finish { result } && result is Ok
            } else {
                query_after(events).1 == (QueryDeed::Finish {
                    result: Err(
                        "sqlite3_step"@ + " ("@ + decimal_int(rc as int) + "): "@ + match message {
                            Some(m) => m@,
                            None => "sqlite error"@,
                        },
                    ),
                })
            },
            QueryEvent::Row { .. } => query_after(events).1 == QueryDeed::Step,
        },
{
}

/// Whatever a query asks for, it takes: the result of compiling first, that of a
/// step after a step, a row after a row was asked for.
pub proof fn a_query_takes_what_it_asks_for(events: Seq<QueryEvent>, event: QueryEvent)
    requires
        all_query_events_awaited(events),
        events.len() == 0 ==> event is Prepared,
        events.len() > 0 ==> match query_after(events).1 {
            QueryDeed::Step => event is Stepped,
            QueryDeed::ReadRow => event is Row,
            _ => false,
        },
    ensures
        all_query_events_awaited(events.push(event)),
{
    a_query_is_its_events(events);
    assert(events.push(event).drop_last() == events);
}

// ---------------------------------------------------------------- is_query

/// The text of a script from its first statement on: whitespace and comments in
/// lines of their own are left out. Nothing is left where a comment has no end.
pub open spec fn after_comments(s: Seq<char>) -> Option<Seq<char>>
    decreases s.len(),
    via after_comments_shortens
{
    let t = trim_start(s);
    if begins_with(t, "--"@) {
        let line = t.skip(2);
        let end = index_of(line, '\n');
        if end < line.len() {
            after_comments(line.skip(end + 1))
        } else {
            None
        }
    } else {
        Some(t)
    }
}

#[via_fn]
proof fn after_comments_shortens(s: Seq<char>) {
    reveal_strlit("--");
    let t = trim_start(s);
    trim_start_is_shorter(s);
    if begins_with(t, "--"@) {
        index_of_is_first(t.skip(2), '\n');
    }
}

proof fn trim_start_is_shorter(s: Seq<char>)
    ensures
        trim_start(s).len() <= s.len(),
    decreases s.len(),
{
    if s.len() > 0 && is_space(s[0]) {
        trim_start_is_shorter(s.drop_first());
    }
}

/// Whether a script gives rows, by its first word.
pub open spec fn gives_rows(sql: Seq<char>) -> bool {
    match after_comments(sql) {
        None => false,
        Some(rest) => {
            ||| begins_with(upper(rest), "SELECT"@)
            ||| begins_with(upper(rest), "WITH"@)
            ||| begins_with(upper(rest), "EXPLAIN"@)
        },
    }
}

/// Whether a script gives rows, by its first word.
pub fn is_query(sql: &str) -> (r: bool)
    ensures
        r == gives_rows(sql@),
{
    let v = chars_of(sql);
    let mut i: usize = 0;
    assert(v@.skip(0) == v@);
    loop
        invariant
            i <= v.len(),
            v@ == sql@,
            after_comments(v@.skip(i as int)) == after_comments(sql@),
        decreases v.len() - i,
    {
        let from = skip_space(&v, i);
        let ghost t = v@.skip(from as int);
        proof {
            reveal_strlit("--");
        }
        if v.len() - from > 1 && v[from] == '-' && v[from + 1] == '-' {
            proof {
                assert(t.take(2) =~= "--"@);
                assert(t.skip(2) == v@.skip(from + 2));
            }
            let end = find_char(&v, from + 2, '\n');
            if end == v.len() {
                return false;
            }
            proof {
                assert(v@.skip(from + 2).skip(end - (from + 2) + 1) == v@.skip(end + 1));
            }
            i = end + 1;
        } else {
            proof {
                if begins_with(t, "--"@) {
                    assert(t.take(2)[0] == t[0]);
                    assert(t.take(2)[1] == t[1]);
                }
            }
            let rest = upper_text(string_of(&v, from, v.len()).as_str());
            assert(v@.subrange(from as int, v.len() as int) == t);
            return text_begins_with(rest.as_str(), "SELECT") || text_begins_with(
                rest.as_str(),
                "WITH",
            ) || text_begins_with(rest.as_str(), "EXPLAIN");
        }
    }
}

} // verus!
