//! The order in which the sessions' statements run.
//!
//! Every session has a connection of its own to the one database file. While a
//! session is inside a transaction it holds the file: every other session's
//! statement waits, so nothing lands inside that transaction.
use std::collections::{HashSet, VecDeque};

use vstd::prelude::*;

use crate::protocol::{
    error_response, is_closed_answer, is_failure, ok_closed, Param, Request, Response,
};

verus! {

broadcast use vstd::std_specs::hash::group_hash_axioms;

/// A statement to run on a session's connection.
#[derive(Debug)]
pub enum Work {
    Exec { sql: String, params: Vec<Param> },
    Prepare { sql: String },
}

/// A statement of session `id`; its answer goes to whoever holds `ticket`.
#[derive(Debug)]
pub struct Pending {
    pub id: u64,
    pub ticket: u64,
    pub work: Work,
}

/// The statement that is on the connection now; `sql` where it is to be logged.
#[derive(Debug)]
pub struct Running {
    pub id: u64,
    pub ticket: u64,
    pub sql: Option<String>,
}

/// Something that happened to a session.
#[derive(Debug)]
pub enum Job {
    /// An attempt to open a connection for session `id` has ended.
    Opened { id: u64, ticket: u64, failure: Option<String> },
    /// The client of session `id` asked for something.
    Req { id: u64, ticket: u64, req: Request },
    /// The client of session `id` is gone.
    Drop { id: u64, ticket: u64 },
}

/// What the holder of a ticket is told.
#[derive(Debug)]
pub enum Reply {
    /// The connection was opened, or why it was not.
    Opened { failure: Option<String> },
    /// The session is forgotten.
    Dropped,
    /// The session was closed at its own request.
    Closed,
    /// There is no such session.
    NoSession,
    /// The session ended before the statement could run.
    SessionClosed,
    /// The statement ran.
    Ran { response: Response },
}

/// A line for the broker's log.
#[derive(Debug)]
pub enum LogEvent {
    Queued { id: u64 },
    Exec { id: u64, autocommit: bool, sql: String },
    Release { id: u64 },
}

/// What the broker has to do, in order.
#[derive(Debug)]
pub enum Effect {
    Log { event: LogEvent },
    Reply { ticket: u64, reply: Reply },
    /// Close the connection of the session; an open transaction is rolled back.
    CloseConnection { id: u64 },
    /// Run the statement and report with `finished`.
    Run { statement: Pending },
}

/// The state of a worker.
pub struct WorkerState {
    /// The sessions that have a connection.
    pub sessions: Set<u64>,
    /// The session inside a transaction. Only that session runs.
    pub holder: Option<u64>,
    /// The statements that wait, in the order in which they came.
    pub pending: Seq<Pending>,
    /// The statement that is running.
    pub running: Option<Running>,
}

/// The text of a statement that is to be logged when it has run.
pub open spec fn logged_sql(work: Work) -> Option<String> {
    match work {
        Work::Exec { sql, .. } => Some(sql),
        Work::Prepare { .. } => None,
    }
}

/// The log line for a statement that ran.
pub open spec fn exec_log(id: u64, autocommit: bool, sql: Option<String>) -> Seq<Effect> {
    match sql {
        Some(sql) => seq![Effect::Log { event: LogEvent::Exec { id, autocommit, sql } }],
        None => seq![],
    }
}

impl WorkerState {
    /// A worker without sessions.
    pub open spec fn initial() -> WorkerState {
        WorkerState { sessions: Set::empty(), holder: None, pending: seq![], running: None }
    }

    /// What holds of every worker: the holder has a connection, what runs is
    /// the holder's if there is a holder, and nothing waits for nothing.
    pub open spec fn wf(self) -> bool {
        &&& self.holder matches Some(h) ==> self.sessions.contains(h)
        &&& self.running matches Some(r) ==> self.sessions.contains(r.id) && (self.holder is None
            || self.holder == Some(r.id))
        &&& self.holder is None && self.running is None ==> self.pending.len() == 0
    }

    /// The statement goes on its session's connection, if there is one.
    pub open spec fn start(self, p: Pending) -> (WorkerState, Seq<Effect>) {
        if self.sessions.contains(p.id) {
            (
                WorkerState {
                    running: Some(
                        Running { id: p.id, ticket: p.ticket, sql: logged_sql(p.work) },
                    ),
                    ..self
                },
                seq![Effect::Run { statement: p }],
            )
        } else {
            (
                self,
                exec_log(p.id, true, logged_sql(p.work)).push(
                    Effect::Reply { ticket: p.ticket, reply: Reply::NoSession },
                ),
            )
        }
    }

    /// Where no session holds the file, the next statement that waits is
    /// started; those whose session is gone are answered on the way.
    pub open spec fn pump(self) -> (WorkerState, Seq<Effect>)
        decreases self.pending.len(),
    {
        if self.holder is Some || self.running is Some || self.pending.len() == 0 {
            (self, seq![])
        } else {
            let rest = WorkerState { pending: self.pending.drop_first(), ..self };
            let (next, effects) = rest.start(self.pending[0]);
            (next.pump().0, effects + next.pump().1)
        }
    }

    /// A new statement waits where another session holds the file, and is
    /// started where none does.
    pub open spec fn submit(self, p: Pending) -> (WorkerState, Seq<Effect>) {
        if self.holder is Some && self.holder != Some(p.id) {
            (
                WorkerState { pending: self.pending.push(p), ..self },
                seq![Effect::Log { event: LogEvent::Queued { id: p.id } }],
            )
        } else {
            let (next, effects) = self.start(p);
            (next.pump().0, effects + next.pump().1)
        }
    }

    /// The session is forgotten: its connection is closed, what it has waiting
    /// is answered, and the file is free if it held it.
    pub open spec fn forget(self, id: u64) -> (WorkerState, Seq<Effect>) {
        let close = if self.sessions.contains(id) {
            seq![Effect::CloseConnection { id }]
        } else {
            seq![]
        };
        let release = if self.holder == Some(id) {
            seq![Effect::Log { event: LogEvent::Release { id } }]
        } else {
            seq![]
        };
        (
            WorkerState {
                sessions: self.sessions.remove(id),
                holder: if self.holder == Some(id) {
                    None
                } else {
                    self.holder
                },
                pending: others(self.pending, id),
                running: self.running,
            },
            close + closed_replies(self.pending, id) + release,
        )
    }

    /// The session is forgotten, whoever ended it is told, and the next
    /// statement is started.
    pub open spec fn end(self, id: u64, ticket: u64, reply: Reply) -> (WorkerState, Seq<Effect>) {
        let (next, effects) = self.forget(id);
        (next.pump().0, effects.push(Effect::Reply { ticket, reply }) + next.pump().1)
    }

    /// What a job does.
    pub open spec fn handle(self, job: Job) -> (WorkerState, Seq<Effect>) {
        match job {
            Job::Opened { id, ticket, failure } => {
                let next = if failure is None {
                    WorkerState { sessions: self.sessions.insert(id), ..self }
                } else {
                    self
                };
                (
                    next.pump().0,
                    seq![Effect::Reply { ticket, reply: Reply::Opened { failure } }]
                        + next.pump().1,
                )
            },
            Job::Drop { id, ticket } => self.end(id, ticket, Reply::Dropped),
            Job::Req { id, ticket, req } => match req {
                Request::Close => self.end(id, ticket, Reply::Closed),
                Request::Exec { sql, params } => self.submit(
                    Pending { id, ticket, work: Work::Exec { sql, params } },
                ),
                Request::Prepare { sql } => self.submit(
                    Pending { id, ticket, work: Work::Prepare { sql } },
                ),
            },
        }
    }

    /// The running statement is done: its session holds the file from now on if
    /// it is inside a transaction, and no longer if it was and is not.
    pub open spec fn finished(self, response: Response) -> (WorkerState, Seq<Effect>)
        recommends
            self.running is Some,
    {
        let r = self.running->0;
        let released = response.autocommit && self.holder == Some(r.id);
        let next = WorkerState {
            holder: if !response.autocommit {
                Some(r.id)
            } else if released {
                None
            } else {
                self.holder
            },
            running: None,
            ..self
        };
        let release = if released {
            seq![Effect::Log { event: LogEvent::Release { id: r.id } }]
        } else {
            seq![]
        };
        (
            next.pump().0,
            exec_log(r.id, response.autocommit, r.sql) + release + seq![
                Effect::Reply { ticket: r.ticket, reply: Reply::Ran { response } },
            ] + next.pump().1,
        )
    }
}

/// The statements of every session but `id`, in order.
pub open spec fn others(pending: Seq<Pending>, id: u64) -> Seq<Pending>
    decreases pending.len(),
{
    if pending.len() == 0 {
        seq![]
    } else if pending.last().id == id {
        others(pending.drop_last(), id)
    } else {
        others(pending.drop_last(), id).push(pending.last())
    }
}

/// The answers to the waiting statements of a session that is closed.
pub open spec fn closed_replies(pending: Seq<Pending>, id: u64) -> Seq<Effect>
    decreases pending.len(),
{
    if pending.len() == 0 {
        seq![]
    } else if pending.last().id == id {
        closed_replies(pending.drop_last(), id).push(
            Effect::Reply { ticket: pending.last().ticket, reply: Reply::SessionClosed },
        )
    } else {
        closed_replies(pending.drop_last(), id)
    }
}

/// The broker's single worker. It decides what runs; the connections themselves
/// are its caller's.
#[derive(Debug)]
pub struct Worker {
    sessions: HashSet<u64>,
    holder: Option<u64>,
    pending: VecDeque<Pending>,
    running: Option<Running>,
}

impl View for Worker {
    type V = WorkerState;

    closed spec fn view(&self) -> WorkerState {
        WorkerState {
            sessions: self.sessions@,
            holder: self.holder,
            pending: self.pending@,
            running: self.running,
        }
    }
}

fn logged_text(work: &Work) -> (r: Option<String>)
    ensures
        r == logged_sql(*work),
{
    match work {
        Work::Exec { sql, .. } => Some(sql.clone()),
        Work::Prepare { .. } => None,
    }
}

impl Worker {
    /// A worker without sessions.
    pub fn new() -> (w: Worker)
        ensures
            w@ == WorkerState::initial(),
            w@.wf(),
    {
        let w = Worker {
            sessions: HashSet::new(),
            holder: None,
            pending: VecDeque::new(),
            running: None,
        };
        assert(w@.sessions == Set::<u64>::empty());
        assert(w@.pending == Seq::<Pending>::empty());
        w
    }

    /// Whether no statement is running, so that the next job can be handled.
    pub fn is_idle(&self) -> (r: bool)
        ensures
            r == (self@.running is None),
    {
        self.running.is_none()
    }

    /// The session inside a transaction.
    pub fn holder(&self) -> (r: Option<u64>)
        ensures
            r == self@.holder,
    {
        self.holder
    }

    /// How many statements wait.
    pub fn waiting(&self) -> (n: usize)
        ensures
            n == self@.pending.len(),
    {
        self.pending.len()
    }

    fn start(&mut self, p: Pending, effects: &mut Vec<Effect>)
        ensures
            final(self)@ == old(self)@.start(p).0,
            final(effects)@ == old(effects)@ + old(self)@.start(p).1,
    {
        let sql = logged_text(&p.work);
        if self.sessions.contains(&p.id) {
            self.running = Some(Running { id: p.id, ticket: p.ticket, sql });
            effects.push(Effect::Run { statement: p });
        } else {
            let ghost before = effects@;
            let ghost pushed = old(self)@.start(p).1;
            if let Some(sql) = sql {
                effects.push(
                    Effect::Log { event: LogEvent::Exec { id: p.id, autocommit: true, sql } },
                );
            }
            effects.push(Effect::Reply { ticket: p.ticket, reply: Reply::NoSession });
            assert(effects@ == before + pushed);
        }
    }

    fn pump(&mut self, effects: &mut Vec<Effect>)
        ensures
            final(self)@ == old(self)@.pump().0,
            final(effects)@ == old(effects)@ + old(self)@.pump().1,
    {
        let ghost whole = self@.pump();
        let ghost given = effects@;
        while self.holder.is_none() && self.running.is_none()
            invariant_except_break
                whole.0 == self@.pump().0,
                given + whole.1 == effects@ + self@.pump().1,
            ensures
                self@ == whole.0,
                effects@ == given + whole.1,
            decreases self@.pending.len(),
        {
            let ghost before = self@;
            match self.pending.pop_front() {
                None => {
                    assert(before.pump().1 == Seq::<Effect>::empty());
                    assert(self@.pending == before.pending);
                    assert(effects@ + Seq::<Effect>::empty() == effects@);
                    break;
                },
                Some(p) => {
                    let ghost rest = self@;
                    assert(rest.pending == before.pending.drop_first());
                    assert(rest.sessions == before.sessions);
                    let ghost sent = effects@;
                    self.start(p, effects);
                    proof {
                        let fx = rest.start(p).1;
                        assert(before.pump().1 == fx + self@.pump().1);
                        assert(sent + (fx + self@.pump().1) == effects@ + self@.pump().1);
                    }
                },
            }
        }
        assert(effects@ + Seq::<Effect>::empty() == effects@);
    }

    fn submit(&mut self, p: Pending, effects: &mut Vec<Effect>)
        ensures
            final(self)@ == old(self)@.submit(p).0,
            final(effects)@ == old(effects)@ + old(self)@.submit(p).1,
    {
        let ghost before = self@;
        let ghost given = effects@;
        let waits = match self.holder {
            Some(h) => h != p.id,
            None => false,
        };
        if waits {
            effects.push(Effect::Log { event: LogEvent::Queued { id: p.id } });
            self.pending.push_back(p);
            assert(effects@ == given + before.submit(p).1);
        } else {
            self.start(p, effects);
            let ghost middle = self@;
            self.pump(effects);
            assert(given + before.start(p).1 + middle.pump().1 == given + (before.start(p).1
                + middle.pump().1));
        }
    }

    fn forget(&mut self, id: u64, effects: &mut Vec<Effect>)
        ensures
            final(self)@ == old(self)@.forget(id).0,
            final(effects)@ == old(effects)@ + old(self)@.forget(id).1,
    {
        let ghost before = self@;
        let ghost given = effects@;
        let ghost close = if before.sessions.contains(id) {
            seq![Effect::CloseConnection { id }]
        } else {
            seq![]
        };
        let had = self.sessions.remove(&id);
        if had {
            effects.push(Effect::CloseConnection { id });
        }
        assert(effects@ == given + close);
        let mut kept: VecDeque<Pending> = VecDeque::new();
        let mut done: Ghost<int> = Ghost(0);
        assert(before.pending.take(0) == Seq::<Pending>::empty());
        assert(before.pending.skip(0) == before.pending);
        assert(effects@ == given + close + closed_replies(before.pending.take(0), id));
        loop
            invariant_except_break
                0 <= done@ <= before.pending.len(),
                self.pending@ == before.pending.skip(done@),
                self.holder == before.holder,
                self.running == before.running,
                self.sessions@ == before.sessions.remove(id),
                kept@ == others(before.pending.take(done@), id),
                effects@ == given + close + closed_replies(before.pending.take(done@), id),
            ensures
                self.holder == before.holder,
                self.running == before.running,
                self.sessions@ == before.sessions.remove(id),
                kept@ == others(before.pending, id),
                effects@ == given + close + closed_replies(before.pending, id),
            decreases self.pending@.len(),
        {
            match self.pending.pop_front() {
                None => {
                    assert(before.pending.take(done@) == before.pending);
                    break;
                },
                Some(p) => {
                    proof {
                        let t = before.pending.take(done@ + 1);
                        assert(t.drop_last() == before.pending.take(done@));
                        assert(t.last() == p);
                        assert(before.pending.skip(done@).drop_first() == before.pending.skip(
                            done@ + 1,
                        ));
                    }
                    let ghost sent = effects@;
                    if p.id == id {
                        effects.push(
                            Effect::Reply { ticket: p.ticket, reply: Reply::SessionClosed },
                        );
                        assert(effects@ == given + close + closed_replies(
                            before.pending.take(done@ + 1),
                            id,
                        ));
                    } else {
                        kept.push_back(p);
                    }
                    proof {
                        done@ = done@ + 1;
                    }
                },
            }
        }
        self.pending = kept;
        let held = match self.holder {
            Some(h) => h == id,
            None => false,
        };
        if held {
            self.holder = None;
            effects.push(Effect::Log { event: LogEvent::Release { id } });
        }
        assert(effects@ == given + before.forget(id).1);
        assert(self@ == before.forget(id).0);
    }

    fn end(&mut self, id: u64, ticket: u64, reply: Reply, effects: &mut Vec<Effect>)
        ensures
            final(self)@ == old(self)@.end(id, ticket, reply).0,
            final(effects)@ == old(effects)@ + old(self)@.end(id, ticket, reply).1,
    {
        let ghost before = self@;
        let ghost given = effects@;
        self.forget(id, effects);
        let ghost middle = self@;
        effects.push(Effect::Reply { ticket, reply });
        self.pump(effects);
        assert(effects@ == given + before.end(id, ticket, reply).1);
    }

    /// Handles a job. The caller carries out the effects in order; where the
    /// last of them runs a statement, `finished` comes next.
    pub fn handle(&mut self, job: Job) -> (effects: Vec<Effect>)
        requires
            old(self)@.wf(),
            old(self)@.running is None,
        ensures
            final(self)@ == old(self)@.handle(job).0,
            effects@ == old(self)@.handle(job).1,
            final(self)@.wf(),
    {
        let ghost before = self@;
        let mut effects: Vec<Effect> = Vec::new();
        match job {
            Job::Opened { id, ticket, failure } => {
                if failure.is_none() {
                    self.sessions.insert(id);
                }
                let ghost middle = self@;
                effects.push(Effect::Reply { ticket, reply: Reply::Opened { failure } });
                self.pump(&mut effects);
                assert(middle == if failure is None {
                    WorkerState { sessions: before.sessions.insert(id), ..before }
                } else {
                    before
                });
            },
            Job::Drop { id, ticket } => {
                self.end(id, ticket, Reply::Dropped, &mut effects);
            },
            Job::Req { id, ticket, req } => {
                match req {
                    Request::Close => {
                        self.end(id, ticket, Reply::Closed, &mut effects);
                    },
                    Request::Exec { sql, params } => {
                        self.submit(
                            Pending { id, ticket, work: Work::Exec { sql, params } },
                            &mut effects,
                        );
                    },
                    Request::Prepare { sql } => {
                        self.submit(
                            Pending { id, ticket, work: Work::Prepare { sql } },
                            &mut effects,
                        );
                    },
                }
            },
        }
        assert(effects@ == before.handle(job).1);
        proof {
            handle_keeps_wf(before, job);
        }
        effects
    }

    /// Takes the result of the statement that was run.
    pub fn finished(&mut self, response: Response) -> (effects: Vec<Effect>)
        requires
            old(self)@.wf(),
            old(self)@.running is Some,
        ensures
            final(self)@ == old(self)@.finished(response).0,
            effects@ == old(self)@.finished(response).1,
            final(self)@.wf(),
    {
        let ghost before = self@;
        let mut effects: Vec<Effect> = Vec::new();
        if let Some(r) = self.running.take() {
            let was_holder = match self.holder {
                Some(h) => h == r.id,
                None => false,
            };
            if let Some(sql) = r.sql {
                effects.push(
                    Effect::Log {
                        event: LogEvent::Exec { id: r.id, autocommit: response.autocommit, sql },
                    },
                );
            }
            if !response.autocommit {
                self.holder = Some(r.id);
            } else if was_holder {
                self.holder = None;
                effects.push(Effect::Log { event: LogEvent::Release { id: r.id } });
            }
            effects.push(Effect::Reply { ticket: r.ticket, reply: Reply::Ran { response } });
            let ghost middle = self@;
            let ghost sent = effects@;
            self.pump(&mut effects);
            proof {
                let (_, fx) = before.finished(response);
                assert(sent + middle.pump().1 == fx);
            }
        }
        proof {
            finished_keeps_wf(before, response);
        }
        effects
    }
}

/// Pumping leaves a well-formed worker: afterwards nothing waits unless a
/// session holds the file or a statement runs.
proof fn pump_keeps_wf(s: WorkerState)
    requires
        s.holder matches Some(h) ==> s.sessions.contains(h),
        s.running matches Some(r) ==> s.sessions.contains(r.id) && (s.holder is None || s.holder
            == Some(r.id)),
    ensures
        s.pump().0.wf(),
        s.pump().0.holder == s.holder,
        s.pump().0.sessions == s.sessions,
    decreases s.pending.len(),
{
    if s.holder is Some || s.running is Some || s.pending.len() == 0 {
    } else {
        let rest = WorkerState { pending: s.pending.drop_first(), ..s };
        pump_keeps_wf(rest.start(s.pending[0]).0);
    }
}

/// Every job leaves a well-formed worker well formed.
pub proof fn handle_keeps_wf(s: WorkerState, job: Job)
    requires
        s.wf(),
        s.running is None,
    ensures
        s.handle(job).0.wf(),
{
    match job {
        Job::Opened { id, ticket, failure } => {
            if failure is None {
                pump_keeps_wf(WorkerState { sessions: s.sessions.insert(id), ..s });
            } else {
                pump_keeps_wf(s);
            }
        },
        Job::Drop { id, ticket } => {
            pump_keeps_wf(s.forget(id).0);
        },
        Job::Req { id, ticket, req } => match req {
            Request::Close => {
                pump_keeps_wf(s.forget(id).0);
            },
            Request::Exec { sql, params } => {
                if s.holder is None || s.holder == Some(id) {
                    pump_keeps_wf(
                        s.start(Pending { id, ticket, work: Work::Exec { sql, params } }).0,
                    );
                }
            },
            Request::Prepare { sql } => {
                if s.holder is None || s.holder == Some(id) {
                    pump_keeps_wf(s.start(Pending { id, ticket, work: Work::Prepare { sql } }).0);
                }
            },
        },
    }
}

/// The end of a statement leaves a well-formed worker well formed.
pub proof fn finished_keeps_wf(s: WorkerState, response: Response)
    requires
        s.wf(),
        s.running is Some,
    ensures
        s.finished(response).0.wf(),
{
    let r = s.running->0;
    let released = response.autocommit && s.holder == Some(r.id);
    pump_keeps_wf(
        WorkerState {
            holder: if !response.autocommit {
                Some(r.id)
            } else if released {
                None
            } else {
                s.holder
            },
            running: None,
            ..s
        },
    );
}

/// The message that a reply becomes on the wire. What is said of opening and
/// dropping a session stays inside the broker.
pub fn reply_response(reply: Reply) -> (r: Option<Response>)
    ensures
        match (reply, r) {
            (Reply::Ran { response }, Some(m)) => m == response,
            (Reply::Closed, Some(m)) => is_closed_answer(m),
            (Reply::SessionClosed, Some(m)) => is_failure(m, true, 1, "session closed"@),
            (Reply::NoSession, Some(m)) => is_failure(m, true, 1, "no session"@),
            (Reply::Opened { .. }, None) => true,
            (Reply::Dropped, None) => true,
            _ => false,
        },
{
    match reply {
        Reply::Ran { response } => Some(response),
        Reply::Closed => Some(ok_closed()),
        Reply::SessionClosed => Some(error_response(true, 1, "session closed")),
        Reply::NoSession => Some(error_response(true, 1, "no session")),
        Reply::Opened { .. } => None,
        Reply::Dropped => None,
    }
}

} // verus!
