//! The calls of the SQLite interface that go to the broker. Each has two
//! halves: one before the request is sent, one that takes the answer.
use vstd::prelude::*;
use vstd::utf8::{decode_utf8, encode_utf8, encode_utf8_decode_utf8, is_char_boundary};

use crate::ctext::{
    all_c_bytes, c_bytes, cstring_lossy, cstrings, is_sql_text, sql_from, views, CText,
};
use crate::protocol::{copy_params, rendered, Cell, Param, Response};
use crate::proxy::{failure_code, failure_text, DbState, SQLITE_ABORT, SQLITE_ERROR, SQLITE_MISUSE};
use crate::runner::SQLITE_OK;
use crate::shim::{replaced_db_keeps_wf, replaced_stmt_keeps_wf, Shim, ShimState};
use crate::statement::{ProxyStmt, StmtState};
use crate::text::copy_text;

verus! {

// ------------------------------------------------------------------- step

/// What stepping a statement comes to before the broker is asked.
#[derive(Debug)]
pub enum StepCall {
    /// The statement is not a proxied one.
    Forward,
    /// The result is known.
    Done { rc: i32 },
    /// The broker is to run the statement.
    Call { db: u64, sql: String, params: Vec<Param> },
}

impl ShimState {
    /// A statement that was run moves on to its next row.
    pub open spec fn advanced(self, stmt: u64) -> (ShimState, i32) {
        let (s, rc) = self.stmts[stmt].advanced();
        (self.with_stmt(stmt, s), rc)
    }

    /// A connection fails on this side.
    pub open spec fn db_failed(self, db: u64, message: Seq<char>) -> ShimState {
        self.with_db(db, self.dbs[db].failed(message))
    }

    /// A connection takes over what a call to the broker came to.
    pub open spec fn db_called(self, db: u64, outcome: Result<Response, String>) -> ShimState {
        self.with_db(db, self.dbs[db].called(outcome))
    }

    /// A statement takes over what running it came to: the first row is handed
    /// out, or the code of the failure.
    pub open spec fn stepped(self, stmt: u64, outcome: Result<Response, String>) -> (
        ShimState,
        i32,
    ) {
        let db = self.stmts[stmt].db;
        let called = self.db_called(db, outcome);
        match outcome {
            Ok(resp) if resp.ok => called.with_stmt(stmt, self.stmts[stmt].ran(resp)).advanced(
                stmt,
            ),
            _ => {
                let code = failure_code(called.dbs[db].errcode);
                (called.with_stmt(stmt, self.stmts[stmt].broke(code)), code)
            },
        }
    }
}

/// Steps a statement, as far as that needs no call to the broker. A statement
/// is run once; its further steps hand out the rows.
pub fn sqlite3_step(shim: &mut Shim, stmt: u64) -> (r: StepCall)
    requires
        old(shim)@.wf(),
    ensures
        ({
            let s = old(shim)@;
            let st = s.stmts[stmt];
            match r {
                StepCall::Forward => !s.stmts.contains_key(stmt) && final(shim)@ == s,
                StepCall::Done { rc } => s.stmts.contains_key(stmt) && if st.started {
                    final(shim)@ == s.advanced(stmt).0 && rc == s.advanced(stmt).1
                } else {
                    &&& s.dbs[st.db].closed
                    &&& rc == SQLITE_ERROR
                    &&& final(shim)@ == s.db_failed(st.db, "connection is closed"@).with_stmt(
                        stmt,
                        st.broke(SQLITE_ERROR),
                    )
                },
                StepCall::Call { db, sql, params } => {
                    &&& s.stmts.contains_key(stmt)
                    &&& !st.started
                    &&& db == st.db
                    &&& !s.dbs[db].closed
                    &&& sql@ == st.sql
                    &&& params@ == st.params
                    &&& final(shim)@ == s
                },
            }
        }),
        final(shim)@.wf(),
{
    if !shim.is_stmt(stmt) {
        return StepCall::Forward;
    }
    let ghost s0 = shim@;
    let mut s = shim.take_stmt(stmt);
    if s.started() {
        let rc = s.advance();
        shim.put_stmt(stmt, s);
        proof {
            assert(shim@ =~= s0.advanced(stmt).0);
            replaced_stmt_keeps_wf(s0, stmt, s@);
        }
        return StepCall::Done { rc };
    }
    let db = s.db();
    let mut d = shim.take_db(db);
    let open = d.may_call();
    shim.put_db(db, d);
    if open {
        let sql = s.sql().clone();
        let params = copy_params(s.params());
        shim.put_stmt(stmt, s);
        assert(shim@ =~= s0);
        StepCall::Call { db, sql, params }
    } else {
        s.broken(SQLITE_ERROR);
        shim.put_stmt(stmt, s);
        proof {
            let failed = s0.db_failed(db, "connection is closed"@);
            assert(shim@ =~= failed.with_stmt(stmt, s0.stmts[stmt].broke(SQLITE_ERROR)));
            replaced_db_keeps_wf(s0, db, failed.dbs[db]);
            replaced_stmt_keeps_wf(failed, stmt, s@);
        }
        StepCall::Done { rc: SQLITE_ERROR }
    }
}

/// Takes over what running a statement came to.
pub fn step_stmt(shim: &mut Shim, stmt: u64, outcome: Result<Response, String>) -> (rc: i32)
    requires
        old(shim)@.wf(),
        old(shim)@.stmts.contains_key(stmt),
        !old(shim)@.stmts[stmt].started,
    ensures
        final(shim)@ == old(shim)@.stepped(stmt, outcome).0,
        rc == old(shim)@.stepped(stmt, outcome).1,
        final(shim)@.wf(),
{
    let ghost s0 = shim@;
    let mut s = shim.take_stmt(stmt);
    let db = s.db();
    let mut d = shim.take_db(db);
    let result = d.rpc(outcome);
    let code: i32 = if d.errcode() == 0 {
        SQLITE_ERROR
    } else {
        d.errcode()
    };
    shim.put_db(db, d);
    let ghost called = s0.db_called(db, outcome);
    proof {
        replaced_db_keeps_wf(s0, db, called.dbs[db]);
    }
    match result {
        Ok(resp) => {
            s.run(resp);
            let rc = s.advance();
            shim.put_stmt(stmt, s);
            proof {
                assert(shim@ =~= s0.stepped(stmt, outcome).0);
                replaced_stmt_keeps_wf(called, stmt, s@);
                assert(shim@ =~= called.with_stmt(stmt, s@));
            }
            rc
        },
        Err(_) => {
            s.broken(code);
            shim.put_stmt(stmt, s);
            proof {
                assert(shim@ =~= s0.stepped(stmt, outcome).0);
                replaced_stmt_keeps_wf(called, stmt, s@);
            }
            code
        },
    }
}

// ------------------------------------------------------------------- exec

/// What becomes of the place where a program wants a message.
#[derive(Debug)]
pub enum Errmsg {
    /// It is not touched.
    Kept,
    /// It is told that there is none.
    Cleared,
    /// It gets this text.
    Given { text: String },
}

/// Whether the message is this text.
pub open spec fn says(errmsg: Errmsg, message: Seq<char>) -> bool {
    errmsg matches Errmsg::Given { text } && text@ == message
}

/// What running a script comes to before the broker is asked.
#[derive(Debug)]
pub enum ExecCall {
    /// The connection is not a proxied one.
    Forward,
    /// The result is known.
    Done { rc: i32, errmsg: Errmsg },
    /// The broker is to run the script.
    Call { sql: String },
}

/// Runs a script, up to the call to the broker.
pub fn sqlite3_exec(shim: &mut Shim, db: u64, sql: Option<&[u8]>) -> (r: ExecCall)
    requires
        old(shim)@.wf(),
    ensures
        ({
            let s = old(shim)@;
            match r {
                ExecCall::Forward => !s.dbs.contains_key(db) && final(shim)@ == s,
                ExecCall::Done { rc, errmsg } => s.dbs.contains_key(db) && if sql is None {
                    rc == SQLITE_MISUSE && errmsg is Kept && final(shim)@ == s
                } else {
                    &&& s.dbs[db].closed
                    &&& rc == SQLITE_ERROR
                    &&& says(errmsg, "connection is closed"@)
                    &&& final(shim)@ == s.db_failed(db, "connection is closed"@)
                },
                ExecCall::Call { sql: text } => {
                    &&& s.dbs.contains_key(db)
                    &&& !s.dbs[db].closed
                    &&& sql matches Some(bytes) && is_sql_text(Some(bytes@), text@)
                    &&& final(shim)@ == s
                },
            }
        }),
        final(shim)@.wf(),
{
    if !shim.is_db(db) {
        return ExecCall::Forward;
    }
    if sql.is_none() {
        return ExecCall::Done { rc: SQLITE_MISUSE, errmsg: Errmsg::Kept };
    }
    let text = sql_from(sql);
    let ghost s0 = shim@;
    let mut d = shim.take_db(db);
    let open = d.may_call();
    shim.put_db(db, d);
    if open {
        assert(shim@ =~= s0);
        ExecCall::Call { sql: text }
    } else {
        proof {
            assert(shim@ =~= s0.db_failed(db, "connection is closed"@));
            replaced_db_keeps_wf(s0, db, s0.dbs[db].failed("connection is closed"@));
        }
        ExecCall::Done {
            rc: SQLITE_ERROR,
            errmsg: Errmsg::Given { text: copy_text("connection is closed") },
        }
    }
}

/// A script that was run, and how many of its rows were handed out.
#[derive(Debug)]
pub struct Execution {
    pub db: u64,
    pub resp: Response,
    pub at: usize,
}

/// A row as the program gets it.
#[derive(Debug)]
pub struct ExecRow {
    pub values: Vec<CText>,
    pub names: Vec<CText>,
}

/// What comes next while the rows of a script are handed out.
#[derive(Debug)]
pub enum ExecStep {
    /// The program's callback is to be called with this row.
    Callback { row: ExecRow },
    /// The script is done.
    Done { rc: i32, errmsg: Errmsg },
}

/// What a script came to.
#[derive(Debug)]
pub enum ExecRun {
    Failed { rc: i32, errmsg: Errmsg },
    /// It ran; its rows are to be handed out.
    Rows { execution: Execution },
}

/// Takes over what running a script came to.
pub fn exec_sql(shim: &mut Shim, db: u64, outcome: Result<Response, String>) -> (r: ExecRun)
    requires
        old(shim)@.wf(),
        old(shim)@.dbs.contains_key(db),
    ensures
        final(shim)@ == old(shim)@.db_called(db, outcome),
        final(shim)@.wf(),
        match r {
            ExecRun::Rows { execution } => {
                &&& outcome == Ok::<Response, String>(execution.resp)
                &&& execution.resp.ok
                &&& execution.db == db
                &&& execution.at == 0
            },
            ExecRun::Failed { rc, errmsg } => {
                &&& rc == final(shim)@.dbs[db].errcode
                &&& match outcome {
                    Ok(resp) => !resp.ok && says(errmsg, failure_text(resp.message@)),
                    Err(why) => says(errmsg, why@),
                }
            },
        },
{
    let ghost s0 = shim@;
    let mut d = shim.take_db(db);
    let result = d.rpc(outcome);
    let code = d.errcode();
    shim.put_db(db, d);
    proof {
        assert(shim@ =~= s0.db_called(db, outcome));
        replaced_db_keeps_wf(s0, db, s0.dbs[db].called(outcome));
    }
    match result {
        Ok(resp) => ExecRun::Rows { execution: Execution { db, resp, at: 0 } },
        Err(message) => ExecRun::Failed { rc: code, errmsg: Errmsg::Given { text: message } },
    }
}

/// The values of a row as the program gets them.
pub open spec fn exec_values(row: Seq<Cell>) -> Seq<Seq<u8>> {
    row.map_values(|cell: Cell| c_bytes(rendered(cell)))
}

/// The names of the columns as the program gets them, at least as many as there
/// are values.
pub open spec fn exec_names(columns: Seq<String>, count: nat) -> Seq<Seq<u8>> {
    if columns.len() < count {
        all_c_bytes(columns) + Seq::new((count - columns.len()) as nat, |i: int| Seq::<u8>::empty())
    } else {
        all_c_bytes(columns)
    }
}

fn row_values(row: &Vec<Cell>) -> (out: Vec<CText>)
    ensures
        views(out@) == exec_values(row@),
{
    let mut out: Vec<CText> = Vec::new();
    let mut i: usize = 0;
    while i < row.len()
        invariant
            i <= row.len(),
            views(out@) == exec_values(row@).take(i as int),
        decreases row.len() - i,
    {
        let ghost before = out@;
        out.push(cstring_lossy(row[i].render().as_str()));
        assert(views(out@) == views(before).push(c_bytes(rendered(row@[i as int]))));
        assert(exec_values(row@).take(i + 1) == exec_values(row@).take(i as int).push(
            c_bytes(rendered(row@[i as int])),
        ));
        i = i + 1;
    }
    assert(exec_values(row@).take(i as int) == exec_values(row@));
    out
}

fn row_names(columns: &Vec<String>, count: usize) -> (out: Vec<CText>)
    ensures
        views(out@) == exec_names(columns@, count as nat),
{
    let mut out = cstrings(columns);
    let ghost named = views(out@);
    let ghost n = columns@.len();
    proof {
        assert(named.len() == n);
        assert(out@.len() == n);
        assert(c_bytes(""@) == Seq::<u8>::empty()) by {
            reveal_strlit("");
            assert(""@ == Seq::<char>::empty());
            assert(encode_utf8(Seq::<char>::empty()) == Seq::<u8>::empty());
        }
        assert(named == named + Seq::new(0, |i: int| Seq::<u8>::empty()));
    }
    while out.len() < count
        invariant
            n == columns@.len(),
            named == all_c_bytes(columns@),
            named.len() == n,
            out.len() >= n,
            n < count ==> out.len() <= count,
            n >= count ==> out.len() == n,
            c_bytes(""@) == Seq::<u8>::empty(),
            views(out@) == named + Seq::new(
                (out@.len() - n) as nat,
                |i: int| Seq::<u8>::empty(),
            ),
        decreases count - out.len(),
    {
        let ghost before = out@;
        out.push(cstring_lossy(""));
        assert(views(out@) == views(before).push(Seq::<u8>::empty()));
        assert(Seq::new((out@.len() - n) as nat, |i: int| Seq::<u8>::empty()) == Seq::new(
            (before.len() - n) as nat,
            |i: int| Seq::<u8>::empty(),
        ).push(Seq::<u8>::empty()));
    }
    assert(views(out@) == exec_names(columns@, count as nat));
    out
}

/// The state after the callback ended a script: the connection reports that, and
/// keeps what the statements did.
pub open spec fn aborted(s: ShimState, db: u64, resp: Response) -> ShimState {
    s.with_db(
        db,
        s.dbs[db].applied(
            false,
            SQLITE_ABORT,
            "callback aborted"@,
            resp.changes,
            resp.total_changes,
            resp.last_insert_rowid,
            resp.autocommit,
        ),
    )
}

impl Execution {
    /// The next row to hand to the program.
    pub fn next_row(&mut self) -> (r: Option<ExecRow>)
        ensures
            final(self).db == old(self).db,
            final(self).resp == old(self).resp,
            match r {
                Some(row) => {
                    &&& old(self).at < old(self).resp.rows@.len()
                    &&& final(self).at == old(self).at + 1
                    &&& views(row.values@) == exec_values(
                        old(self).resp.rows@[old(self).at as int]@,
                    )
                    &&& views(row.names@) == exec_names(
                        old(self).resp.columns@,
                        row.values@.len(),
                    )
                },
                None => old(self).at >= old(self).resp.rows@.len() && final(self).at == old(self).at,
            },
    {
        if self.at >= self.resp.rows.len() {
            return None;
        }
        let values = row_values(&self.resp.rows[self.at]);
        let names = row_names(&self.resp.columns, values.len());
        self.at = self.at + 1;
        Some(ExecRow { values, names })
    }

    /// The program wants no more rows: the connection reports that, and keeps
    /// what the statements did.
    pub fn abort(&self, shim: &mut Shim) -> (r: (i32, Errmsg))
        requires
            old(shim)@.wf(),
            old(shim)@.dbs.contains_key(self.db),
        ensures
            r.0 == SQLITE_ABORT,
            says(r.1, "callback aborted"@),
            final(shim)@ == aborted(old(shim)@, self.db, self.resp),
            final(shim)@.wf(),
    {
        let ghost s0 = shim@;
        let mut d = shim.take_db(self.db);
        let answer = Response {
            ok: false,
            message: copy_text("callback aborted"),
            code: SQLITE_ABORT,
            columns: Vec::new(),
            rows: Vec::new(),
            changes: self.resp.changes,
            last_insert_rowid: self.resp.last_insert_rowid,
            autocommit: self.resp.autocommit,
            tail: 0,
            param_count: 0,
            param_names: Vec::new(),
            decltypes: Vec::new(),
            total_changes: self.resp.total_changes,
            empty: false,
        };
        d.apply(&answer);
        shim.put_db(self.db, d);
        proof {
            assert(shim@ =~= s0.with_db(self.db, s0.dbs[self.db].answered(answer)));
            replaced_db_keeps_wf(s0, self.db, s0.dbs[self.db].answered(answer));
        }
        (SQLITE_ABORT, Errmsg::Given { text: copy_text("callback aborted") })
    }

    /// Says what comes next, by what the callback returned for the row before;
    /// before the first row that is 0. A callback that answers anything else
    /// ends the script. Otherwise the script is done, and went well, where all
    /// rows were handed out or the program wants none.
    pub fn step(&mut self, shim: &mut Shim, wants_rows: bool, returned: i32) -> (r: ExecStep)
        requires
            old(shim)@.wf(),
        ensures
            final(self).db == old(self).db,
            final(self).resp == old(self).resp,
            final(shim)@.wf(),
            match r {
                ExecStep::Callback { row } => {
                    &&& wants_rows
                    &&& returned == 0
                    &&& old(self).at < old(self).resp.rows@.len()
                    &&& final(self).at == old(self).at + 1
                    &&& views(row.values@) == exec_values(
                        old(self).resp.rows@[old(self).at as int]@,
                    )
                    &&& views(row.names@) == exec_names(
                        old(self).resp.columns@,
                        row.values@.len(),
                    )
                    &&& final(shim)@ == old(shim)@
                },
                ExecStep::Done { rc, errmsg } => {
                    &&& final(self).at == old(self).at
                    &&& if returned != 0 {
                        &&& rc == SQLITE_ABORT
                        &&& says(errmsg, "callback aborted"@)
                        &&& final(shim)@ == if old(shim)@.dbs.contains_key(old(self).db) {
                            aborted(old(shim)@, old(self).db, old(self).resp)
                        } else {
                            old(shim)@
                        }
                    } else {
                        &&& !wants_rows || old(self).at >= old(self).resp.rows@.len()
                        &&& rc == SQLITE_OK
                        &&& errmsg is Cleared
                        &&& final(shim)@ == old(shim)@
                    }
                },
            },
            exec_turn(old(self).resp.rows@.len(), wants_rows, old(self).at as nat, returned)
                == match r {
                ExecStep::Callback { .. } => ExecTurn::Callback,
                ExecStep::Done { rc, .. } => ExecTurn::Done { rc },
            },
    {
        if returned != 0 {
            if shim.is_db(self.db) {
                let (rc, errmsg) = self.abort(shim);
                return ExecStep::Done { rc, errmsg };
            }
            return ExecStep::Done {
                rc: SQLITE_ABORT,
                errmsg: Errmsg::Given { text: copy_text("callback aborted") },
            };
        }
        if wants_rows {
            if let Some(row) = self.next_row() {
                return ExecStep::Callback { row };
            }
        }
        ExecStep::Done { rc: SQLITE_OK, errmsg: Errmsg::Cleared }
    }
}

/// What comes next while the rows of a script are handed out.
pub enum ExecTurn {
    Callback,
    Done { rc: i32 },
}

/// What comes next, with `at` of the rows handed out.
pub open spec fn exec_turn(rows: nat, wants_rows: bool, at: nat, returned: i32) -> ExecTurn {
    if returned != 0 {
        ExecTurn::Done { rc: SQLITE_ABORT }
    } else if wants_rows && at < rows {
        ExecTurn::Callback
    } else {
        ExecTurn::Done { rc: SQLITE_OK }
    }
}

/// How many rows are handed out in all, and with which code the script is done,
/// where `at` rows were handed out and `answers` holds what the callback gives
/// for each row.
pub open spec fn exec_course(
    rows: nat,
    wants_rows: bool,
    at: nat,
    returned: i32,
    answers: Seq<i32>,
) -> (nat, i32)
    decreases rows - at,
{
    match exec_turn(rows, wants_rows, at, returned) {
        ExecTurn::Done { rc } => (at, rc),
        ExecTurn::Callback => exec_course(
            rows,
            wants_rows,
            at + 1,
            answers[at as int],
            answers,
        ),
    }
}

/// A script hands out its rows one after the other up to the first for which the
/// callback does not give 0, and is aborted there. Where the callback always
/// gives 0 all rows are handed out and the script went well; so it did, without
/// any row, where the program wants none.
pub proof fn a_script_stops_at_the_first_refusal(rows: nat, wants_rows: bool, answers: Seq<i32>)
    requires
        answers.len() == rows,
    ensures
        ({
            let (handed, rc) = exec_course(rows, wants_rows, 0, 0, answers);
            &&& !wants_rows ==> handed == 0 && rc == SQLITE_OK
            &&& handed <= rows
            &&& forall|k: int| 0 <= k < handed - 1 ==> #[trigger] answers[k] == 0
            &&& wants_rows && (forall|k: int| 0 <= k < rows ==> #[trigger] answers[k] == 0)
                ==> handed == rows && rc == SQLITE_OK
            &&& wants_rows && (exists|k: int| 0 <= k < rows && #[trigger] answers[k] != 0) ==> {
                &&& handed > 0
                &&& answers[handed - 1] != 0
                &&& rc == SQLITE_ABORT
            }
        }),
{
    if wants_rows {
        course_from(rows, 0, 0, answers);
    }
}

proof fn course_from(rows: nat, at: nat, returned: i32, answers: Seq<i32>)
    requires
        answers.len() == rows,
        at <= rows,
    ensures
        ({
            let (handed, rc) = exec_course(rows, true, at, returned, answers);
            &&& at <= handed <= rows
            &&& returned != 0 ==> handed == at && rc == SQLITE_ABORT
            &&& returned == 0 ==> {
                &&& forall|k: int| at <= k < handed - 1 ==> #[trigger] answers[k] == 0
                &&& rc == SQLITE_OK ==> handed == rows && (handed > at ==> answers[handed - 1] == 0)
                &&& rc != SQLITE_OK ==> rc == SQLITE_ABORT && handed > at && answers[handed - 1]
                    != 0
            }
        }),
    decreases rows - at,
{
    if returned == 0 && at < rows {
        course_from(rows, at + 1, answers[at as int], answers);
    }
}

// ---------------------------------------------------------------- prepare

/// What compiling a statement comes to before the broker is asked. The tail is
/// where the program is told that the rest of its text begins.
#[derive(Debug)]
pub enum PrepareCall {
    /// The connection is not a proxied one.
    Forward,
    /// The result is known.
    Done { rc: i32, tail: Option<usize> },
    /// The broker is to compile the text.
    Call { sql: String, tail: Option<usize> },
}

/// The tail before the broker has answered: the whole text, where its end is
/// known.
pub open spec fn first_tail(sql: Seq<u8>, nbytes: i32) -> Option<usize> {
    if nbytes < 0 {
        Some(sql.len() as usize)
    } else {
        None
    }
}

/// Compiles a statement, up to the call to the broker. A place for the handle
/// must be given; `nbytes` below zero says that the text ends with a zero byte.
pub fn sqlite3_prepare_v2(
    shim: &mut Shim,
    has_place: bool,
    db: u64,
    sql: Option<&[u8]>,
    nbytes: i32,
) -> (r: PrepareCall)
    requires
        old(shim)@.wf(),
    ensures
        ({
            let s = old(shim)@;
            match r {
                PrepareCall::Forward => {
                    &&& has_place
                    &&& !s.dbs.contains_key(db)
                    &&& final(shim)@ == s
                },
                PrepareCall::Done { rc, tail } => if !has_place {
                    rc == SQLITE_MISUSE && tail is None && final(shim)@ == s
                } else {
                    &&& s.dbs.contains_key(db)
                    &&& match sql {
                        None => rc == SQLITE_MISUSE && tail is None && final(shim)@ == s,
                        Some(bytes) => {
                            &&& s.dbs[db].closed
                            &&& rc == SQLITE_ERROR
                            &&& tail == first_tail(bytes@, nbytes)
                            &&& final(shim)@ == s.db_failed(db, "connection is closed"@)
                        },
                    }
                },
                PrepareCall::Call { sql: text, tail } => {
                    &&& has_place
                    &&& s.dbs.contains_key(db)
                    &&& !s.dbs[db].closed
                    &&& sql matches Some(bytes) && is_sql_text(Some(bytes@), text@) && tail
                        == first_tail(bytes@, nbytes)
                    &&& final(shim)@ == s
                },
            }
        }),
        final(shim)@.wf(),
{
    if !has_place {
        return PrepareCall::Done { rc: SQLITE_MISUSE, tail: None };
    }
    if !shim.is_db(db) {
        return PrepareCall::Forward;
    }
    let tail: Option<usize> = match sql {
        None => {
            return PrepareCall::Done { rc: SQLITE_MISUSE, tail: None };
        },
        Some(bytes) => if nbytes < 0 {
            Some(bytes.len())
        } else {
            None
        },
    };
    let text = sql_from(sql);
    let ghost s0 = shim@;
    let mut d = shim.take_db(db);
    let open = d.may_call();
    shim.put_db(db, d);
    if open {
        assert(shim@ =~= s0);
        PrepareCall::Call { sql: text, tail }
    } else {
        proof {
            assert(shim@ =~= s0.db_failed(db, "connection is closed"@));
            replaced_db_keeps_wf(s0, db, s0.dbs[db].failed("connection is closed"@));
        }
        PrepareCall::Done { rc: SQLITE_ERROR, tail }
    }
}

/// What compiling a statement came to.
#[derive(Debug, Clone, Copy)]
pub struct Prepared {
    pub rc: i32,
    /// Where the rest of the text begins, if that is known now.
    pub tail: Option<usize>,
    /// Whether there is a statement.
    pub created: bool,
}

/// Where the rest of the text begins, by the answer of the broker.
pub open spec fn answered_tail(resp: Response, sql: Seq<char>) -> usize {
    if resp.tail <= encode_utf8(sql).len() {
        resp.tail
    } else {
        encode_utf8(sql).len() as usize
    }
}

/// The text of the statement that was compiled. Where the broker names no tail
/// it is all of it.
pub open spec fn statement_text(sql: Seq<char>, tail: usize) -> Seq<char> {
    if tail == 0 {
        sql
    } else {
        decode_utf8(encode_utf8(sql).subrange(0, tail as int))
    }
}

impl ShimState {
    /// A connection gets a statement that the broker compiled, or the failure.
    pub open spec fn prepared(
        self,
        db: u64,
        sql: Seq<char>,
        outcome: Result<Response, String>,
        stmt: u64,
    ) -> (ShimState, Prepared) {
        let called = self.db_called(db, outcome);
        match outcome {
            Ok(resp) if resp.ok => {
                let tail = answered_tail(resp, sql);
                if resp.empty {
                    (called, Prepared { rc: SQLITE_OK, tail: Some(tail), created: false })
                } else if tail != 0 && !is_char_boundary(encode_utf8(sql), tail as int) {
                    (called, Prepared { rc: SQLITE_ERROR, tail: Some(tail), created: false })
                } else {
                    let d = called.dbs[db];
                    (
                        called.with_db(db, DbState { stmts: d.stmts.push(stmt), ..d }).with_stmt(
                            stmt,
                            StmtState::prepared(db, statement_text(sql, tail), resp),
                        ),
                        Prepared { rc: SQLITE_OK, tail: Some(tail), created: true },
                    )
                }
            },
            _ => (called, Prepared { rc: called.dbs[db].errcode, tail: None, created: false }),
        }
    }
}

proof fn linked_keeps_wf(s: ShimState, db: u64, stmt: u64, x: StmtState)
    requires
        s.wf(),
        s.dbs.contains_key(db),
        stmt != 0,
        !s.stmts.contains_key(stmt),
        x.wf(),
        x.db == db,
    ensures
        s.with_db(
            db,
            DbState { stmts: s.dbs[db].stmts.push(stmt), ..s.dbs[db] },
        ).with_stmt(stmt, x).wf(),
{
    let old_list = s.dbs[db].stmts;
    let list = old_list.push(stmt);
    let t = s.with_db(db, DbState { stmts: list, ..s.dbs[db] }).with_stmt(stmt, x);
    assert(!old_list.contains(stmt)) by {
        if old_list.contains(stmt) {
            let j = choose|j: int| 0 <= j < old_list.len() && old_list[j] == stmt;
            assert(s.stmts.contains_key(s.dbs[db].stmts[j]));
        }
    }
    assert(list.no_duplicates());
    assert forall|y: u64| #[trigger] t.stmts.contains_key(y) implies {
        &&& t.stmts[y].wf()
        &&& t.dbs.contains_key(t.stmts[y].db)
        &&& t.dbs[t.stmts[y].db].stmts.contains(y)
    } by {
        if y == stmt {
            assert(list[list.len() - 1] == stmt);
        } else {
            assert(s.stmts.contains_key(y));
            if s.stmts[y].db == db {
                let j = choose|j: int| 0 <= j < old_list.len() && old_list[j] == y;
                assert(list[j] == y);
            }
        }
    }
    assert forall|d: u64, i: int|
        #![trigger t.dbs[d].stmts[i]]
        t.dbs.contains_key(d) && 0 <= i < t.dbs[d].stmts.len() implies {
        &&& t.stmts.contains_key(t.dbs[d].stmts[i])
        &&& t.stmts[t.dbs[d].stmts[i]].db == d
    } by {
        if d == db {
            if i < old_list.len() {
                assert(list[i] == s.dbs[db].stmts[i]);
            }
        } else {
            assert(t.dbs[d].stmts[i] == s.dbs[d].stmts[i]);
        }
    }
}

/// Takes over what compiling a statement came to. The handle is given to the
/// statement, if there is one, and must not be in use.
pub fn prepare_v2(
    shim: &mut Shim,
    db: u64,
    sql: String,
    outcome: Result<Response, String>,
    stmt: u64,
) -> (r: Prepared)
    requires
        old(shim)@.wf(),
        old(shim)@.dbs.contains_key(db),
        stmt != 0,
        !old(shim)@.stmts.contains_key(stmt),
    ensures
        final(shim)@ == old(shim)@.prepared(db, sql@, outcome, stmt).0,
        r == old(shim)@.prepared(db, sql@, outcome, stmt).1,
        final(shim)@.wf(),
{
    let ghost s0 = shim@;
    let ghost called = s0.db_called(db, outcome);
    let mut d = shim.take_db(db);
    let result = d.rpc(outcome);
    proof {
        replaced_db_keeps_wf(s0, db, called.dbs[db]);
    }
    let resp = match result {
        Ok(resp) => resp,
        Err(_) => {
            let rc = d.errcode();
            shim.put_db(db, d);
            assert(shim@ =~= called);
            return Prepared { rc, tail: None, created: false };
        },
    };
    let len = sql.as_str().as_bytes().len();
    let tail: usize = if resp.tail <= len {
        resp.tail
    } else {
        len
    };
    if resp.empty {
        shim.put_db(db, d);
        assert(shim@ =~= called);
        return Prepared { rc: SQLITE_OK, tail: Some(tail), created: false };
    }
    if tail != 0 && !sql.as_str().is_char_boundary(tail) {
        shim.put_db(db, d);
        assert(shim@ =~= called);
        return Prepared { rc: SQLITE_ERROR, tail: Some(tail), created: false };
    }
    let text: String = if tail == 0 {
        sql
    } else {
        let head = sql.as_str().split_at(tail).0;
        proof {
            encode_utf8_decode_utf8(head@);
        }
        copy_text(head)
    };
    let s = ProxyStmt::prepared(db, text, &resp);
    d.link_stmt(stmt);
    shim.put_db(db, d);
    shim.put_stmt(stmt, s);
    proof {
        assert(shim@ =~= s0.prepared(db, sql@, outcome, stmt).0);
        linked_keeps_wf(called, db, stmt, s@);
        assert(shim@ =~= called.with_db(
            db,
            DbState { stmts: called.dbs[db].stmts.push(stmt), ..called.dbs[db] },
        ).with_stmt(stmt, s@));
    }
    Prepared { rc: SQLITE_OK, tail: Some(tail), created: true }
}

} // verus!
