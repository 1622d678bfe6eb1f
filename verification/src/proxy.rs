//! A connection to the broker, as a client of the SQLite interface sees it.
use vstd::prelude::*;

use crate::ctext::{c_bytes, cstring_lossy, is_empty, CText};
use crate::protocol::Response;
use crate::stub::{parse_stub, parsed_stub};
use crate::text::{copy_text, same_text};

verus! {

/// Result codes of the SQLite interface that a proxied connection gives.
pub const SQLITE_ERROR: i32 = 1;

pub const SQLITE_ABORT: i32 = 4;

pub const SQLITE_BUSY: i32 = 5;

pub const SQLITE_CANTOPEN: i32 = 14;

pub const SQLITE_TOOBIG: i32 = 18;

pub const SQLITE_MISUSE: i32 = 21;

/// The state of a proxied connection.
pub struct DbState {
    pub filename: Seq<u8>,
    pub errmsg: Seq<u8>,
    pub changes: i32,
    pub total_changes: i32,
    pub last_rowid: i64,
    pub autocommit: i32,
    pub errcode: i32,
    /// The statements of the connection, the oldest first.
    pub stmts: Seq<u64>,
    /// Whether the program has closed it.
    pub closed: bool,
}

/// The code under which a failed answer is reported.
pub open spec fn failure_code(code: i32) -> i32 {
    if code == 0 {
        SQLITE_ERROR
    } else {
        code
    }
}

impl DbState {
    /// A connection that was just opened.
    pub open spec fn opened(path: Seq<char>) -> DbState {
        DbState {
            filename: c_bytes(path),
            errmsg: c_bytes("not an error"@),
            changes: 0,
            total_changes: 0,
            last_rowid: 0,
            autocommit: 1,
            errcode: 0,
            stmts: seq![],
            closed: false,
        }
    }

    /// The connection after an answer of the broker.
    pub open spec fn applied(
        self,
        ok: bool,
        code: i32,
        message: Seq<char>,
        changes: i32,
        total_changes: i32,
        last_rowid: i64,
        autocommit: bool,
    ) -> DbState {
        DbState {
            changes,
            total_changes,
            last_rowid,
            autocommit: if autocommit {
                1
            } else {
                0
            },
            errcode: if ok {
                0
            } else {
                failure_code(code)
            },
            errmsg: c_bytes(
                if ok {
                    "not an error"@
                } else {
                    message
                },
            ),
            ..self
        }
    }

    /// The connection after an answer of the broker.
    pub open spec fn answered(self, resp: Response) -> DbState {
        self.applied(
            resp.ok,
            resp.code,
            resp.message@,
            resp.changes,
            resp.total_changes,
            resp.last_insert_rowid,
            resp.autocommit,
        )
    }

    /// The connection after something failed on this side.
    pub open spec fn failed(self, message: Seq<char>) -> DbState {
        DbState { errcode: SQLITE_ERROR, errmsg: c_bytes(message), ..self }
    }

    /// The connection after a call to the broker: an answer, or why there is
    /// none.
    pub open spec fn called(self, outcome: Result<Response, String>) -> DbState {
        match outcome {
            Ok(resp) => self.answered(resp),
            Err(why) => self.failed(why@),
        }
    }
}

/// The handles but for one.
pub open spec fn without(handles: Seq<u64>, gone: u64) -> Seq<u64> {
    handles.filter(|h: u64| h != gone)
}

/// Whether `r` is what a call to the broker comes to: the answer, or what is
/// said of the failure.
pub open spec fn is_call_result(
    outcome: Result<Response, String>,
    r: Result<Response, String>,
) -> bool {
    match outcome {
        Ok(resp) => if resp.ok {
            r == Ok::<Response, String>(resp)
        } else {
            r matches Err(message) && message@ == failure_text(resp.message@)
        },
        Err(why) => r matches Err(message) && message@ == why@,
    }
}

/// What is said of a failure that the broker reports.
pub open spec fn failure_text(message: Seq<char>) -> Seq<char> {
    if message.len() == 0 {
        "sql error"@
    } else {
        message
    }
}

/// A proxied connection. The stream to the broker is kept elsewhere.
#[derive(Debug)]
pub struct ProxyDb {
    filename: CText,
    errmsg: CText,
    changes: i32,
    total_changes: i32,
    last_rowid: i64,
    autocommit: i32,
    errcode: i32,
    stmts: Vec<u64>,
    closed: bool,
}

impl View for ProxyDb {
    type V = DbState;

    closed spec fn view(&self) -> DbState {
        DbState {
            filename: self.filename@,
            errmsg: self.errmsg@,
            changes: self.changes,
            total_changes: self.total_changes,
            last_rowid: self.last_rowid,
            autocommit: self.autocommit,
            errcode: self.errcode,
            stmts: self.stmts@,
            closed: self.closed,
        }
    }
}

impl ProxyDb {
    /// A connection that was just opened for a path.
    pub fn opened(path: &str) -> (db: ProxyDb)
        ensures
            db@ == DbState::opened(path@),
    {
        let stmts: Vec<u64> = Vec::new();
        assert(stmts@ == Seq::<u64>::empty());
        ProxyDb {
            filename: cstring_lossy(path),
            errmsg: cstring_lossy("not an error"),
            changes: 0,
            total_changes: 0,
            last_rowid: 0,
            autocommit: 1,
            errcode: 0,
            stmts,
            closed: false,
        }
    }

    /// Takes over an answer of the broker.
    pub fn apply(&mut self, resp: &Response)
        ensures
            final(self)@ == old(self)@.answered(*resp),
    {
        self.changes = resp.changes;
        self.total_changes = resp.total_changes;
        self.last_rowid = resp.last_insert_rowid;
        self.autocommit = if resp.autocommit {
            1
        } else {
            0
        };
        if resp.ok {
            self.errcode = 0;
            self.errmsg = cstring_lossy("not an error");
        } else {
            self.errcode = if resp.code == 0 {
                SQLITE_ERROR
            } else {
                resp.code
            };
            self.errmsg = cstring_lossy(resp.message.as_str());
        }
    }

    /// Notes that something failed on this side.
    pub fn fail(&mut self, message: &str)
        ensures
            final(self)@ == old(self)@.failed(message@),
    {
        self.errcode = SQLITE_ERROR;
        self.errmsg = cstring_lossy(message);
    }

    /// Whether a call to the broker may be made. On a closed connection none
    /// may, and that is a failure.
    pub fn may_call(&mut self) -> (r: bool)
        ensures
            r == !old(self)@.closed,
            final(self)@ == if r {
                old(self)@
            } else {
                old(self)@.failed("connection is closed"@)
            },
    {
        if self.closed {
            self.fail("connection is closed");
            false
        } else {
            true
        }
    }

    /// Takes over what a call to the broker came to.
    pub fn rpc(&mut self, outcome: Result<Response, String>) -> (r: Result<Response, String>)
        ensures
            final(self)@ == old(self)@.called(outcome),
            is_call_result(outcome, r),
    {
        match outcome {
            Ok(resp) => {
                self.apply(&resp);
                if resp.ok {
                    Ok(resp)
                } else if is_empty(resp.message.as_str()) {
                    Err(copy_text("sql error"))
                } else {
                    Err(resp.message)
                }
            },
            Err(why) => {
                self.fail(why.as_str());
                Err(why)
            },
        }
    }

    /// Adds a statement of the connection.
    pub fn link_stmt(&mut self, stmt: u64)
        ensures
            final(self)@ == (DbState { stmts: old(self)@.stmts.push(stmt), ..old(self)@ }),
    {
        self.stmts.push(stmt);
    }

    /// Drops a statement of the connection.
    pub fn unlink_stmt(&mut self, stmt: u64)
        ensures
            final(self)@ == (DbState {
                stmts: without(old(self)@.stmts, stmt),
                ..old(self)@
            }),
    {
        let mut kept: Vec<u64> = Vec::new();
        let mut i: usize = 0;
        assert(without(self.stmts@.take(0), stmt) == Seq::<u64>::empty()) by {
            reveal(Seq::filter);
        }
        while i < self.stmts.len()
            invariant
                i <= self.stmts.len(),
                kept@ == without(self.stmts@.take(i as int), stmt),
                self@ == old(self)@,
            decreases self.stmts.len() - i,
        {
            if self.stmts[i] != stmt {
                kept.push(self.stmts[i]);
            }
            proof {
                let longer = self.stmts@.take(i + 1);
                assert(longer.drop_last() == self.stmts@.take(i as int));
                reveal(Seq::filter);
            }
            i = i + 1;
        }
        assert(self.stmts@.take(i as int) == self.stmts@);
        self.stmts = kept;
    }

    /// Notes that the program has closed the connection.
    pub fn close(&mut self)
        ensures
            final(self)@ == (DbState { closed: true, ..old(self)@ }),
    {
        self.closed = true;
    }

    /// Whether the program has closed the connection.
    pub fn is_closed(&self) -> (r: bool)
        ensures
            r == self@.closed,
    {
        self.closed
    }

    /// The statements of the connection, the oldest first.
    pub fn stmts(&self) -> (r: &Vec<u64>)
        ensures
            r@ == self@.stmts,
    {
        &self.stmts
    }

    /// The path that the connection was opened with.
    pub fn filename(&self) -> (r: &CText)
        ensures
            r@ == self@.filename,
    {
        &self.filename
    }

    /// What is said of the last call.
    pub fn errmsg(&self) -> (r: &CText)
        ensures
            r@ == self@.errmsg,
    {
        &self.errmsg
    }

    /// The code of the last call.
    pub fn errcode(&self) -> (r: i32)
        ensures
            r == self@.errcode,
    {
        self.errcode
    }

    /// How many rows the last statement changed.
    pub fn changes(&self) -> (r: i32)
        ensures
            r == self@.changes,
    {
        self.changes
    }

    /// How many rows all statements changed.
    pub fn total_changes(&self) -> (r: i32)
        ensures
            r == self@.total_changes,
    {
        self.total_changes
    }

    /// The row that was inserted last.
    pub fn last_rowid(&self) -> (r: i64)
        ensures
            r == self@.last_rowid,
    {
        self.last_rowid
    }

    /// Whether no transaction is open.
    pub fn autocommit(&self) -> (r: i32)
        ensures
            r == self@.autocommit,
    {
        self.autocommit
    }
}

/// A call that failed leaves a code that says so, and one that went well leaves
/// none.
pub proof fn a_failure_has_a_code(db: DbState, outcome: Result<Response, String>)
    ensures
        db.called(outcome).errcode == 0 <==> (outcome matches Ok(resp) && resp.ok),
{
}

/// Whether a path may name a stub at all.
pub open spec fn may_be_stub(path: Seq<char>) -> bool {
    path.len() > 0 && path != ":memory:"@
}

/// Whether the file at a path is to be looked at: a nameless database and one
/// in memory have none.
pub fn stub_path(path: &str) -> (r: bool)
    ensures
        r == may_be_stub(path@),
{
    !is_empty(path) && !same_text(path, ":memory:")
}

/// The address of the broker behind a path, by what the file at the path holds,
/// if it could be read.
pub fn stub_addr(path: &str, contents: Option<&[u8]>) -> (r: Option<String>)
    ensures
        ({
            let named = match contents {
                Some(bytes) if may_be_stub(path@) => parsed_stub(bytes@),
                _ => None,
            };
            match r {
                Some(addr) => named == Some(addr@),
                None => named is None,
            }
        }),
{
    if !stub_path(path) {
        return None;
    }
    match contents {
        Some(bytes) => parse_stub(bytes),
        None => None,
    }
}

/// Why the broker does not take a session, by what it sends as a greeting.
pub fn session_refusal(ok: bool, error: Option<String>) -> (r: Option<String>)
    ensures
        match r {
            None => ok,
            Some(why) => !ok && why@ == match error {
                Some(e) => e@,
                None => "broker rejected session"@,
            },
        },
{
    if ok {
        None
    } else {
        match error {
            Some(e) => Some(e),
            None => Some(copy_text("broker rejected session")),
        }
    }
}

} // verus!
