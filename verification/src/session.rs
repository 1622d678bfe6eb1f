//! What the `call` and `session` commands do and print.
use vstd::prelude::*;

use crate::client::{gives_rows, is_query, row_views};
use crate::load::{DbAction, DbEvent, Deed};
use crate::number::{decimal_int, i64_text};
use crate::text::{
    begins_with, chars_of, copy_text, join, joined, same_text, string_of, text_begins_with, texts,
    trim, trimmed,
};

verus! {

/// The lines for the rows of a result.
pub open spec fn row_lines(rows: Seq<Seq<Seq<char>>>, label: Seq<char>, sep: Seq<char>) -> Seq<
    Seq<char>,
> {
    rows.map_values(|row: Seq<Seq<char>>| label + join(row, sep))
}

fn lines_of_rows(rows: &Vec<Vec<String>>, label: &str, sep: &str) -> (out: Vec<String>)
    ensures
        texts(out@) == row_lines(row_views(rows@), label@, sep@),
{
    let mut out: Vec<String> = Vec::new();
    let mut i: usize = 0;
    let ghost all = row_lines(row_views(rows@), label@, sep@);
    while i < rows.len()
        invariant
            i <= rows.len(),
            all == row_lines(row_views(rows@), label@, sep@),
            texts(out@) == all.take(i as int),
        decreases rows.len() - i,
    {
        let ghost before = texts(out@);
        let mut line = copy_text(label);
        line.append(joined(&rows[i], sep).as_str());
        out.push(line);
        assert(texts(out@) == before.push(line@));
        assert(all[i as int] == line@);
        assert(all.take(i + 1) == all.take(i as int).push(all[i as int]));
        i = i + 1;
    }
    assert(all.take(i as int) == all);
    out
}

fn no_lines() -> (v: Vec<String>)
    ensures
        texts(v@) == Seq::<Seq<char>>::empty(),
{
    let v: Vec<String> = Vec::new();
    assert(texts(v@) == Seq::<Seq<char>>::empty());
    v
}

fn one_line(line: String) -> (v: Vec<String>)
    ensures
        texts(v@) == seq![line@],
{
    let mut v: Vec<String> = Vec::new();
    v.push(line);
    assert(texts(v@) == seq![line@]);
    v
}

// -------------------------------------------------------------------- call

/// What a call waits for.
#[derive(Debug, Clone, Copy, PartialEq, Eq, Structural)]
pub enum CallPhase {
    Opening,
    Executing,
    Querying,
    Over,
}

/// The state of a call.
pub struct CallState {
    pub sqls: Seq<Seq<char>>,
    /// The statement at hand.
    pub at: int,
    pub phase: CallPhase,
}

/// A step of a call: the state, the lines to print, what comes next.
pub struct CallStep {
    pub state: CallState,
    pub said: Seq<Seq<char>>,
    pub deed: Deed,
}

impl CallState {
    /// The state while the database is being opened.
    pub open spec fn begin(sqls: Seq<Seq<char>>) -> CallState {
        CallState { sqls, at: 0, phase: CallPhase::Opening }
    }

    /// The statement at a position comes next, if there is one. One that gives
    /// rows is a query, the others are run as scripts.
    pub open spec fn run(self, at: int, said: Seq<Seq<char>>) -> CallStep {
        if at >= self.sqls.len() {
            CallStep {
                state: CallState { at, phase: CallPhase::Over, ..self },
                said,
                deed: Deed::Done,
            }
        } else if gives_rows(self.sqls[at]) {
            CallStep {
                state: CallState { at, phase: CallPhase::Querying, ..self },
                said,
                deed: Deed::Query { sql: self.sqls[at] },
            }
        } else {
            CallStep {
                state: CallState { at, phase: CallPhase::Executing, ..self },
                said,
                deed: Deed::Exec { sql: self.sqls[at] },
            }
        }
    }

    /// The call fails.
    pub open spec fn fail(self, error: Seq<char>) -> CallStep {
        CallStep {
            state: CallState { phase: CallPhase::Over, ..self },
            said: seq![],
            deed: Deed::Failed { error },
        }
    }

    /// What an event does.
    pub open spec fn step(self, event: DbEvent) -> CallStep {
        match (self.phase, event) {
            (CallPhase::Opening, DbEvent::Opened { error }) => match error {
                None => self.run(0, seq![]),
                Some(e) => self.fail(e@),
            },
            (CallPhase::Executing, DbEvent::Executed { error }) => match error {
                None => self.run(self.at + 1, seq!["ok"@]),
                Some(e) => self.fail(e@),
            },
            (CallPhase::Querying, DbEvent::Queried { result }) => match result {
                Ok(rows) => self.run(
                    self.at + 1,
                    row_lines(row_views(rows@), "cell:"@, ","@),
                ),
                Err(e) => self.fail(e@),
            },
            _ => CallStep { state: self, said: seq![], deed: Deed::Unexpected },
        }
    }

    /// What holds of every state.
    pub open spec fn wf(self) -> bool {
        &&& 0 <= self.at <= self.sqls.len()
        &&& self.phase == CallPhase::Executing || self.phase == CallPhase::Querying ==> self.at
            < self.sqls.len()
    }
}

/// A call.
#[derive(Debug)]
pub struct Call {
    sqls: Vec<String>,
    at: usize,
    phase: CallPhase,
}

impl View for Call {
    type V = CallState;

    closed spec fn view(&self) -> CallState {
        CallState { sqls: texts(self.sqls@), at: self.at as int, phase: self.phase }
    }
}

/// The lines to print, and what comes next.
#[derive(Debug)]
pub struct CallReply {
    pub said: Vec<String>,
    pub action: DbAction,
}

/// Whether the reply is that of a step.
pub open spec fn is_call_reply(r: CallReply, step: CallStep) -> bool {
    texts(r.said@) == step.said && r.action@ == step.deed
}

impl Call {
    /// A call whose database is being opened.
    pub fn begin(sqls: Vec<String>) -> (c: Call)
        ensures
            c@ == CallState::begin(texts(sqls@)),
            c@.wf(),
    {
        Call { sqls, at: 0, phase: CallPhase::Opening }
    }

    fn run(&mut self, at: usize, said: Vec<String>) -> (r: CallReply)
        ensures
            final(self)@ == old(self)@.run(at as int, texts(said@)).state,
            is_call_reply(r, old(self)@.run(at as int, texts(said@))),
    {
        self.at = at;
        if at >= self.sqls.len() {
            self.phase = CallPhase::Over;
            return CallReply { said, action: DbAction::Done };
        }
        let sql = self.sqls[at].clone();
        assert(texts(self.sqls@)[at as int] == sql@);
        if is_query(sql.as_str()) {
            self.phase = CallPhase::Querying;
            CallReply { said, action: DbAction::Query { sql } }
        } else {
            self.phase = CallPhase::Executing;
            CallReply { said, action: DbAction::Exec { sql } }
        }
    }

    fn fail(&mut self, error: String) -> (r: CallReply)
        ensures
            final(self)@ == old(self)@.fail(error@).state,
            is_call_reply(r, old(self)@.fail(error@)),
    {
        self.phase = CallPhase::Over;
        CallReply { said: no_lines(), action: DbAction::Failed { error } }
    }

    /// Takes an event and says what comes next.
    pub fn step(&mut self, event: DbEvent) -> (r: CallReply)
        requires
            old(self)@.wf(),
        ensures
            final(self)@ == old(self)@.step(event).state,
            is_call_reply(r, old(self)@.step(event)),
            final(self)@.wf(),
    {
        match (self.phase, event) {
            (CallPhase::Opening, DbEvent::Opened { error }) => match error {
                None => self.run(0, no_lines()),
                Some(e) => self.fail(e),
            },
            (CallPhase::Executing, DbEvent::Executed { error }) => match error {
                None => {
                    assert(self.at < self.sqls.len());
                    let next: usize = self.at + 1;
                    self.run(next, one_line(copy_text("ok")))
                },
                Some(e) => self.fail(e),
            },
            (CallPhase::Querying, DbEvent::Queried { result }) => match result {
                Ok(rows) => {
                    assert(self.at < self.sqls.len());
                    let next: usize = self.at + 1;
                    let lines = lines_of_rows(&rows, "cell:", ",");
                    self.run(next, lines)
                },
                Err(e) => self.fail(e),
            },
            _ => CallReply { said: no_lines(), action: DbAction::Unexpected },
        }
    }
}

// ----------------------------------------------------------------- session

/// What a session waits for.
#[derive(Debug, Clone, Copy, PartialEq, Eq, Structural)]
pub enum SessionPhase {
    /// The database is being opened.
    Opening,
    /// A command is being read.
    Reading,
    /// The word to go on is being read.
    Holding,
    /// A script is being run.
    Executing,
    /// A query is being made.
    Querying,
    Over,
}

/// What happened in a session.
#[derive(Debug)]
#[allow(inconsistent_fields)]
pub enum SessionEvent {
    /// The database was opened.
    Opened,
    /// A line was read; at the end there is none.
    Line { line: Option<String> },
    /// A script was run: how many rows it changed, and the last that it
    /// inserted.
    Executed { result: Result<(i32, i64), String> },
    /// A query gave these rows.
    Queried { result: Result<Vec<Vec<String>>, String> },
}

/// What a session does next.
#[derive(Debug)]
#[allow(inconsistent_fields)]
pub enum SessionAction {
    ReadLine,
    Exec { sql: String },
    Query { sql: String },
    /// The session is over.
    End,
    /// The session is over, and the program fails without a word.
    Exit,
    Failed { error: String },
    /// The event does not belong here.
    Unexpected,
}

/// What a session does next.
#[allow(inconsistent_fields)]
pub enum SessionDeed {
    ReadLine,
    Exec { sql: Seq<char> },
    Query { sql: Seq<char> },
    End,
    Exit,
    Failed { error: Seq<char> },
    Unexpected,
}

impl View for SessionAction {
    type V = SessionDeed;

    open spec fn view(&self) -> SessionDeed {
        match self {
            SessionAction::ReadLine => SessionDeed::ReadLine,
            SessionAction::Exec { sql } => SessionDeed::Exec { sql: sql@ },
            SessionAction::Query { sql } => SessionDeed::Query { sql: sql@ },
            SessionAction::End => SessionDeed::End,
            SessionAction::Exit => SessionDeed::Exit,
            SessionAction::Failed { error } => SessionDeed::Failed { error: error@ },
            SessionAction::Unexpected => SessionDeed::Unexpected,
        }
    }
}

/// A step of a session: the phase, the lines to print, what comes next.
pub struct SessionStep {
    pub phase: SessionPhase,
    pub said: Seq<Seq<char>>,
    pub deed: SessionDeed,
}

/// The session fails.
pub open spec fn session_failed(error: Seq<char>) -> SessionStep {
    SessionStep { phase: SessionPhase::Over, said: seq![], deed: SessionDeed::Failed { error } }
}

/// The next command is read.
pub open spec fn next_command(said: Seq<Seq<char>>) -> SessionStep {
    SessionStep { phase: SessionPhase::Reading, said, deed: SessionDeed::ReadLine }
}

/// A statement failed; that is printed, and the session is over.
pub open spec fn statement_failed(error: Seq<char>) -> SessionStep {
    SessionStep {
        phase: SessionPhase::Over,
        said: seq!["ERR "@ + error],
        deed: SessionDeed::Exit,
    }
}

/// What a command does.
pub open spec fn command_step(line: Seq<char>) -> SessionStep {
    if line.len() == 0 {
        next_command(seq![])
    } else if line == "HOLD"@ {
        SessionStep {
            phase: SessionPhase::Holding,
            said: seq!["HOLDING"@],
            deed: SessionDeed::ReadLine,
        }
    } else if begins_with(line, "EXEC "@) {
        SessionStep {
            phase: SessionPhase::Executing,
            said: seq!["START"@],
            deed: SessionDeed::Exec { sql: line.skip("EXEC "@.len() as int) },
        }
    } else if begins_with(line, "QUERY "@) {
        SessionStep {
            phase: SessionPhase::Querying,
            said: seq!["START"@],
            deed: SessionDeed::Query { sql: line.skip("QUERY "@.len() as int) },
        }
    } else {
        session_failed("bad command "@ + line)
    }
}

/// The line for a script that was run.
pub open spec fn ran_line(changes: i32, rowid: i64) -> Seq<char> {
    "OK changes="@ + decimal_int(changes as int) + " rowid="@ + decimal_int(rowid as int)
}

/// What an event does.
pub open spec fn session_step(phase: SessionPhase, event: SessionEvent) -> SessionStep {
    match (phase, event) {
        (SessionPhase::Opening, SessionEvent::Opened) => next_command(seq!["READY"@]),
        (SessionPhase::Reading, SessionEvent::Line { line }) => match line {
            None => SessionStep {
                phase: SessionPhase::Over,
                said: seq![],
                deed: SessionDeed::End,
            },
            Some(text) => command_step(text@),
        },
        (SessionPhase::Holding, SessionEvent::Line { line }) => match line {
            None => session_failed("stdin closed while holding"@),
            Some(text) => if trim(text@) == "GO"@ {
                next_command(seq![])
            } else {
                session_failed("expected GO, got "@ + text@)
            },
        },
        (SessionPhase::Executing, SessionEvent::Executed { result }) => match result {
            Ok((changes, rowid)) => next_command(seq![ran_line(changes, rowid)]),
            Err(e) => statement_failed(e@),
        },
        (SessionPhase::Querying, SessionEvent::Queried { result }) => match result {
            Ok(rows) => next_command(
                row_lines(row_views(rows@), "ROW "@, "\t"@).push("END"@),
            ),
            Err(e) => statement_failed(e@),
        },
        _ => SessionStep { phase, said: seq![], deed: SessionDeed::Unexpected },
    }
}

/// A session.
#[derive(Debug)]
pub struct Session {
    pub phase: SessionPhase,
}

/// The lines to print, and what comes next.
#[derive(Debug)]
pub struct SessionReply {
    pub said: Vec<String>,
    pub action: SessionAction,
}

/// Whether the phase and the reply are those of a step.
pub open spec fn is_session_reply(phase: SessionPhase, r: SessionReply, step: SessionStep) -> bool {
    phase == step.phase && texts(r.said@) == step.said && r.action@ == step.deed
}

impl Session {
    /// A session whose database is being opened.
    pub fn begin() -> (s: Session)
        ensures
            s.phase == SessionPhase::Opening,
    {
        Session { phase: SessionPhase::Opening }
    }

    fn fail(&mut self, label: &str, text: &str) -> (r: SessionReply)
        ensures
            is_session_reply(final(self).phase, r, session_failed(label@ + text@)),
    {
        self.phase = SessionPhase::Over;
        let mut error = copy_text(label);
        error.append(text);
        SessionReply { said: no_lines(), action: SessionAction::Failed { error } }
    }

    fn go_on(&mut self, said: Vec<String>) -> (r: SessionReply)
        ensures
            is_session_reply(final(self).phase, r, next_command(texts(said@))),
    {
        self.phase = SessionPhase::Reading;
        SessionReply { said, action: SessionAction::ReadLine }
    }

    fn statement_failed(&mut self, error: &str) -> (r: SessionReply)
        ensures
            is_session_reply(final(self).phase, r, statement_failed(error@)),
    {
        self.phase = SessionPhase::Over;
        let mut line = copy_text("ERR ");
        line.append(error);
        SessionReply { said: one_line(line), action: SessionAction::Exit }
    }

    fn command(&mut self, line: &str) -> (r: SessionReply)
        ensures
            is_session_reply(final(self).phase, r, command_step(line@)),
    {
        let v = chars_of(line);
        if v.len() == 0 {
            return self.go_on(no_lines());
        }
        if same_text(line, "HOLD") {
            self.phase = SessionPhase::Holding;
            return SessionReply {
                said: one_line(copy_text("HOLDING")),
                action: SessionAction::ReadLine,
            };
        }
        proof {
            reveal_strlit("EXEC ");
            reveal_strlit("QUERY ");
        }
        if text_begins_with(line, "EXEC ") {
            self.phase = SessionPhase::Executing;
            let sql = string_of(&v, 5, v.len());
            assert(sql@ == line@.skip(5));
            return SessionReply {
                said: one_line(copy_text("START")),
                action: SessionAction::Exec { sql },
            };
        }
        if text_begins_with(line, "QUERY ") {
            self.phase = SessionPhase::Querying;
            let sql = string_of(&v, 6, v.len());
            assert(sql@ == line@.skip(6));
            return SessionReply {
                said: one_line(copy_text("START")),
                action: SessionAction::Query { sql },
            };
        }
        self.fail("bad command ", line)
    }

    /// Takes an event and says what comes next.
    pub fn step(&mut self, event: SessionEvent) -> (r: SessionReply)
        ensures
            is_session_reply(final(self).phase, r, session_step(old(self).phase, event)),
    {
        match (self.phase, event) {
            (SessionPhase::Opening, SessionEvent::Opened) => self.go_on(
                one_line(copy_text("READY")),
            ),
            (SessionPhase::Reading, SessionEvent::Line { line }) => match line {
                None => {
                    self.phase = SessionPhase::Over;
                    SessionReply { said: no_lines(), action: SessionAction::End }
                },
                Some(text) => self.command(text.as_str()),
            },
            (SessionPhase::Holding, SessionEvent::Line { line }) => match line {
                None => {
                    proof {
                        assert("stdin closed while holding"@ + ""@ == "stdin closed while holding"@) by {
                            reveal_strlit("");
                        }
                    }
                    self.fail("stdin closed while holding", "")
                },
                Some(text) => {
                    if same_text(trimmed(text.as_str()).as_str(), "GO") {
                        self.go_on(no_lines())
                    } else {
                        self.fail("expected GO, got ", text.as_str())
                    }
                },
            },
            (SessionPhase::Executing, SessionEvent::Executed { result }) => match result {
                Ok((changes, rowid)) => {
                    let mut line = copy_text("OK changes=");
                    line.append(i64_text(changes as i64).as_str());
                    line.append(" rowid=");
                    line.append(i64_text(rowid).as_str());
                    self.go_on(one_line(line))
                },
                Err(e) => self.statement_failed(e.as_str()),
            },
            (SessionPhase::Querying, SessionEvent::Queried { result }) => match result {
                Ok(rows) => {
                    let mut said = lines_of_rows(&rows, "ROW ", "\t");
                    let ghost before = texts(said@);
                    said.push(copy_text("END"));
                    assert(texts(said@) == before.push("END"@));
                    self.go_on(said)
                },
                Err(e) => self.statement_failed(e.as_str()),
            },
            _ => SessionReply { said: no_lines(), action: SessionAction::Unexpected },
        }
    }
}

} // verus!
