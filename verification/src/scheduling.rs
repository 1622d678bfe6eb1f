//! What the worker promises of every run: transactions do not overlap, waiting
//! statements start in the order of their arrival, every request is answered
//! once, and nothing waits without cause.
use vstd::prelude::*;

use crate::protocol::{Request, Response};
use crate::worker::{
    closed_replies, exec_log, finished_keeps_wf, handle_keeps_wf, others, Effect, Job, LogEvent,
    Pending, Reply, Work, WorkerState,
};

verus! {

/// What can happen to a worker.
pub enum Input {
    Job { job: Job },
    Finished { response: Response },
}

/// Whether the worker can take the input in this state: jobs come while nothing
/// runs, results while something does.
pub open spec fn accepts(s: WorkerState, input: Input) -> bool {
    match input {
        Input::Job { .. } => s.running is None,
        Input::Finished { .. } => s.running is Some,
    }
}

/// What an input does.
pub open spec fn step(s: WorkerState, input: Input) -> (WorkerState, Seq<Effect>) {
    match input {
        Input::Job { job } => s.handle(job),
        Input::Finished { response } => s.finished(response),
    }
}

/// The state after the inputs.
pub open spec fn state_after(inputs: Seq<Input>) -> WorkerState
    decreases inputs.len(),
{
    if inputs.len() == 0 {
        WorkerState::initial()
    } else {
        step(state_after(inputs.drop_last()), inputs.last()).0
    }
}

/// Whether every input came when the worker could take it.
pub open spec fn possible(inputs: Seq<Input>) -> bool
    decreases inputs.len(),
{
    inputs.len() > 0 ==> possible(inputs.drop_last()) && accepts(
        state_after(inputs.drop_last()),
        inputs.last(),
    )
}

/// What happened on the database file.
pub enum Happening {
    /// A statement of the session ran; afterwards its connection was inside a
    /// transaction, or not.
    Ran { id: u64, autocommit: bool },
    /// The session's connection was closed.
    Gone { id: u64 },
}

/// What an input made happen.
pub open spec fn happening(s: WorkerState, input: Input) -> Seq<Happening> {
    match input {
        Input::Finished { response } => seq![
            Happening::Ran { id: s.running->0.id, autocommit: response.autocommit },
        ],
        Input::Job { job: Job::Drop { id, .. } } => seq![Happening::Gone { id }],
        Input::Job { job: Job::Req { id, req: Request::Close, .. } } => seq![
            Happening::Gone { id },
        ],
        _ => seq![],
    }
}

/// Everything that happened, in order.
pub open spec fn history(inputs: Seq<Input>) -> Seq<Happening>
    decreases inputs.len(),
{
    if inputs.len() == 0 {
        seq![]
    } else {
        history(inputs.drop_last()) + happening(state_after(inputs.drop_last()), inputs.last())
    }
}

/// Whether a happening ends a transaction of session `id`.
pub open spec fn ends(h: Happening, id: u64) -> bool {
    h == (Happening::Ran { id, autocommit: true }) || h == (Happening::Gone { id })
}

/// Every worker that can be reached is well formed.
pub proof fn reachable_is_wf(inputs: Seq<Input>)
    requires
        possible(inputs),
    ensures
        state_after(inputs).wf(),
    decreases inputs.len(),
{
    if inputs.len() > 0 {
        reachable_is_wf(inputs.drop_last());
        let s = state_after(inputs.drop_last());
        match inputs.last() {
            Input::Job { job } => {
                handle_keeps_wf(s, job);
            },
            Input::Finished { response } => {
                finished_keeps_wf(s, response);
            },
        }
    }
}

/// No statement waits while nothing runs and no session is in a transaction.
pub proof fn nothing_waits_without_cause(inputs: Seq<Input>)
    requires
        possible(inputs),
    ensures
        ({
            let s = state_after(inputs);
            s.pending.len() > 0 ==> s.holder is Some || s.running is Some
        }),
{
    reachable_is_wf(inputs);
}

// ------------------------------------------------------------- isolation

/// The session inside a transaction, by what happened.
pub open spec fn open_after(h: Seq<Happening>) -> Option<u64>
    decreases h.len(),
{
    if h.len() == 0 {
        None
    } else {
        let before = open_after(h.drop_last());
        match h.last() {
            Happening::Ran { id, autocommit } => if !autocommit {
                Some(id)
            } else if before == Some(id) {
                None
            } else {
                before
            },
            Happening::Gone { id } => if before == Some(id) {
                None
            } else {
                before
            },
        }
    }
}

/// Whether each statement ran while no other session was in a transaction.
pub open spec fn serial(h: Seq<Happening>) -> bool {
    forall|j: int|
        0 <= j < h.len() ==> (#[trigger] h[j] matches Happening::Ran { id, .. } ==> open_after(
            h.take(j),
        ) is None || open_after(h.take(j)) == Some(id))
}

proof fn pump_keeps_holder(s: WorkerState)
    ensures
        s.pump().0.holder == s.holder,
    decreases s.pending.len(),
{
    if s.holder is Some || s.running is Some || s.pending.len() == 0 {
    } else {
        let rest = WorkerState { pending: s.pending.drop_first(), ..s };
        pump_keeps_holder(rest.start(s.pending[0]).0);
    }
}

proof fn step_holder(s: WorkerState, input: Input, h: Seq<Happening>)
    requires
        accepts(s, input),
        s.holder == open_after(h),
    ensures
        step(s, input).0.holder == open_after(h + happening(s, input)),
{
    let more = happening(s, input);
    if more.len() == 1 {
        assert((h + more).drop_last() == h);
        assert((h + more).last() == more[0]);
    } else {
        assert(h + more == h);
    }
    match input {
        Input::Job { job } => match job {
            Job::Opened { id, ticket, failure } => {
                if failure is None {
                    pump_keeps_holder(WorkerState { sessions: s.sessions.insert(id), ..s });
                } else {
                    pump_keeps_holder(s);
                }
            },
            Job::Drop { id, ticket } => {
                pump_keeps_holder(s.forget(id).0);
            },
            Job::Req { id, ticket, req } => match req {
                Request::Close => {
                    pump_keeps_holder(s.forget(id).0);
                },
                Request::Exec { sql, params } => {
                    pump_keeps_holder(
                        s.start(Pending { id, ticket, work: Work::Exec { sql, params } }).0,
                    );
                },
                Request::Prepare { sql } => {
                    pump_keeps_holder(
                        s.start(Pending { id, ticket, work: Work::Prepare { sql } }).0,
                    );
                },
            },
        },
        Input::Finished { response } => {
            let r = s.running->0;
            let released = response.autocommit && s.holder == Some(r.id);
            pump_keeps_holder(
                WorkerState {
                    holder: if !response.autocommit {
                        Some(r.id)
                    } else if released {
                        None
                    } else {
                        s.holder
                    },
                    running: None,
                    ..s
                },
            );
        },
    }
}

/// The session inside a transaction is the holder, and each statement ran while
/// no other session was in a transaction.
pub proof fn history_is_serial(inputs: Seq<Input>)
    requires
        possible(inputs),
    ensures
        state_after(inputs).holder == open_after(history(inputs)),
        serial(history(inputs)),
    decreases inputs.len(),
{
    if inputs.len() > 0 {
        let before = inputs.drop_last();
        let s = state_after(before);
        let h = history(before);
        history_is_serial(before);
        reachable_is_wf(before);
        step_holder(s, inputs.last(), h);
        let more = happening(s, inputs.last());
        let all = history(inputs);
        assert(all == h + more);
        assert forall|j: int| 0 <= j < all.len() implies (
        #[trigger] all[j] matches Happening::Ran { id, .. } ==> open_after(all.take(j)) is None
            || open_after(all.take(j)) == Some(id)) by {
            if j < h.len() {
                assert(all.take(j) == h.take(j));
                assert(h[j] == all[j]);
            } else {
                assert(all.take(j) == h);
            }
        }
    }
}

proof fn stays_open(h: Seq<Happening>, i: int, j: int, a: u64)
    requires
        serial(h),
        0 <= i < j <= h.len(),
        h[i] == (Happening::Ran { id: a, autocommit: false }),
        forall|k: int| i < k < j ==> !ends(#[trigger] h[k], a),
    ensures
        open_after(h.take(j)) == Some(a),
    decreases j - i,
{
    assert(h.take(j).drop_last() == h.take(j - 1));
    assert(h.take(j).last() == h[j - 1]);
    if j > i + 1 {
        stays_open(h, i, j - 1, a);
        assert(!ends(h[j - 1], a));
    }
}

/// Transactions do not overlap: between a statement that leaves session `a`
/// inside a transaction and a statement of another session that runs later, the
/// transaction of `a` has ended.
pub proof fn transactions_do_not_overlap(inputs: Seq<Input>, i: int, j: int)
    requires
        possible(inputs),
        0 <= i < j < history(inputs).len(),
        history(inputs)[i] matches Happening::Ran { autocommit, .. } && !autocommit,
        history(inputs)[j] is Ran,
        history(inputs)[i]->Ran_id != history(inputs)[j]->Ran_id,
    ensures
        exists|k: int|
            i < k < j && ends(#[trigger] history(inputs)[k], history(inputs)[i]->Ran_id),
{
    let h = history(inputs);
    let a = h[i]->Ran_id;
    history_is_serial(inputs);
    if forall|k: int| i < k < j ==> !ends(#[trigger] h[k], a) {
        stays_open(h, i, j, a);
        assert(h[j] is Ran);
    }
}

/// A statement is only ever started while no session, or its own, is inside a
/// transaction.
pub proof fn only_the_holder_runs(s: WorkerState, input: Input, k: int)
    requires
        s.wf(),
        accepts(s, input),
        0 <= k < step(s, input).1.len(),
        step(s, input).1[k] is Run,
    ensures
        ({
            let next = step(s, input).0;
            let p = step(s, input).1[k]->statement;
            &&& next.running matches Some(r) && r.id == p.id && r.ticket == p.ticket
            &&& next.holder is None || next.holder == Some(p.id)
            &&& next.sessions.contains(p.id)
            &&& k == step(s, input).1.len() - 1
        }),
{
    match input {
        Input::Job { job } => {
            handle_keeps_wf(s, job);
            match job {
                Job::Opened { id, ticket, failure } => {
                    let next = if failure is None {
                        WorkerState { sessions: s.sessions.insert(id), ..s }
                    } else {
                        s
                    };
                    run_is_last(next);
                },
                Job::Drop { id, ticket } => {
                    no_run_in_replies(s.pending, id);
                    run_is_last(s.forget(id).0);
                },
                Job::Req { id, ticket, req } => match req {
                    Request::Close => {
                        no_run_in_replies(s.pending, id);
                        run_is_last(s.forget(id).0);
                    },
                    Request::Exec { sql, params } => {
                        run_is_last(
                            s.start(Pending { id, ticket, work: Work::Exec { sql, params } }).0,
                        );
                    },
                    Request::Prepare { sql } => {
                        run_is_last(
                            s.start(Pending { id, ticket, work: Work::Prepare { sql } }).0,
                        );
                    },
                },
            }
        },
        Input::Finished { response } => {
            finished_keeps_wf(s, response);
            let r = s.running->0;
            let released = response.autocommit && s.holder == Some(r.id);
            run_is_last(
                WorkerState {
                    holder: if !response.autocommit {
                        Some(r.id)
                    } else if released {
                        None
                    } else {
                        s.holder
                    },
                    running: None,
                    ..s
                },
            );
        },
    }
}

proof fn no_run_in_replies(pending: Seq<Pending>, id: u64)
    ensures
        forall|k: int|
            0 <= k < closed_replies(pending, id).len() ==> #[trigger] closed_replies(
                pending,
                id,
            )[k] is Reply,
    decreases pending.len(),
{
    if pending.len() > 0 {
        no_run_in_replies(pending.drop_last(), id);
    }
}

proof fn run_is_last(s: WorkerState)
    ensures
        s.running is Some ==> s.pump().1.len() == 0 && s.pump().0 == s,
        forall|k: int|
            0 <= k < s.pump().1.len() && #[trigger] s.pump().1[k] is Run ==> {
                &&& k == s.pump().1.len() - 1
                &&& s.pump().0.running matches Some(r) && r.id == s.pump().1[k]->statement.id
                    && r.ticket == s.pump().1[k]->statement.ticket
            },
    decreases s.pending.len(),
{
    if s.holder is Some || s.running is Some || s.pending.len() == 0 {
    } else {
        let rest = WorkerState { pending: s.pending.drop_first(), ..s };
        let (next, fx) = rest.start(s.pending[0]);
        run_is_last(next);
        assert forall|k: int| 0 <= k < s.pump().1.len() && #[trigger] s.pump().1[k] is Run implies {
            &&& k == s.pump().1.len() - 1
            &&& s.pump().0.running matches Some(r) && r.id == s.pump().1[k]->statement.id
                && r.ticket == s.pump().1[k]->statement.ticket
        } by {
            if k >= fx.len() {
                assert(next.pump().1[k - fx.len()] == s.pump().1[k]);
            }
        }
    }
}

// ----------------------------------------------------------------- order

/// The tickets of statements, in order.
pub open spec fn tickets(pending: Seq<Pending>) -> Seq<u64> {
    pending.map_values(|p: Pending| p.ticket)
}

/// The tickets of the statements that the effects start, or refuse for want of
/// a session, in order.
pub open spec fn taken(effects: Seq<Effect>) -> Seq<u64>
    decreases effects.len(),
{
    if effects.len() == 0 {
        seq![]
    } else {
        let before = taken(effects.drop_last());
        match effects.last() {
            Effect::Run { statement } => before.push(statement.ticket),
            Effect::Reply { ticket, reply: Reply::NoSession } => before.push(ticket),
            _ => before,
        }
    }
}

proof fn taken_concat(a: Seq<Effect>, b: Seq<Effect>)
    ensures
        taken(a + b) == taken(a) + taken(b),
    decreases b.len(),
{
    if b.len() == 0 {
        assert(a + b == a);
        assert(taken(a) + taken(b) == taken(a));
    } else {
        taken_concat(a, b.drop_last());
        assert((a + b).drop_last() == a + b.drop_last());
        assert(taken(a + b) == taken(a) + taken(b));
    }
}

proof fn taken_by_start(s: WorkerState, p: Pending)
    ensures
        taken(s.start(p).1) == seq![p.ticket],
{
    let fx = s.start(p).1;
    assert(taken(Seq::<Effect>::empty()) == Seq::<u64>::empty());
    if s.sessions.contains(p.id) {
        assert(fx.drop_last() == Seq::<Effect>::empty());
        assert(taken(fx) == seq![p.ticket]);
    } else {
        let log = exec_log(p.id, true, crate::worker::logged_sql(p.work));
        assert(fx.drop_last() == log);
        if log.len() > 0 {
            assert(log.drop_last() == Seq::<Effect>::empty());
        }
        assert(taken(log) == Seq::<u64>::empty());
        assert(taken(fx) == seq![p.ticket]);
    }
}

/// Waiting statements start in the order of their arrival: what is taken from
/// the queue is taken from its front, one by one, and the rest stays as it is.
pub proof fn waiting_statements_start_in_order(s: WorkerState)
    ensures
        ({
            let (next, effects) = s.pump();
            let n = s.pending.len() - next.pending.len();
            &&& 0 <= n <= s.pending.len()
            &&& next.pending == s.pending.skip(n)
            &&& taken(effects) == tickets(s.pending.take(n))
        }),
    decreases s.pending.len(),
{
    let (next, effects) = s.pump();
    if s.holder is Some || s.running is Some || s.pending.len() == 0 {
        assert(s.pending.skip(0) == s.pending);
        assert(tickets(s.pending.take(0)) == Seq::<u64>::empty());
    } else {
        let rest = WorkerState { pending: s.pending.drop_first(), ..s };
        let p = s.pending[0];
        let (mid, fx) = rest.start(p);
        waiting_statements_start_in_order(mid);
        taken_by_start(rest, p);
        taken_concat(fx, mid.pump().1);
        let n = s.pending.len() - next.pending.len();
        assert(mid.pending.skip(n - 1) == s.pending.skip(n));
        assert(seq![p.ticket] + tickets(mid.pending.take(n - 1)) == tickets(s.pending.take(n)));
    }
}

/// A statement that has to wait is put behind those that wait already.
pub proof fn new_statements_wait_at_the_end(s: WorkerState, p: Pending)
    requires
        s.holder is Some,
        s.holder != Some(p.id),
    ensures
        s.submit(p).0.pending == s.pending.push(p),
        s.submit(p).0.running == s.running,
{
}

/// A session's end takes its own statements out of the queue and leaves the
/// others in their order.
pub proof fn forgetting_keeps_the_others(pending: Seq<Pending>, id: u64)
    ensures
        others(pending, id) == pending.filter(|p: Pending| p.id != id),
    decreases pending.len(),
{
    reveal(Seq::filter);
    if pending.len() > 0 {
        forgetting_keeps_the_others(pending.drop_last(), id);
    }
}

/// A session that is forgotten holds nothing back: it has no connection, nothing
/// waiting, and no hold on the file.
pub proof fn a_forgotten_session_holds_nothing_back(s: WorkerState, id: u64)
    requires
        s.wf(),
        s.running is None,
    ensures
        ({
            let next = s.forget(id).0;
            &&& !next.sessions.contains(id)
            &&& next.holder != Some(id)
            &&& forall|i: int| 0 <= i < next.pending.len() ==> #[trigger] next.pending[i].id != id
        }),
{
    others_are_others(s.pending, id);
}

proof fn others_are_others(pending: Seq<Pending>, id: u64)
    ensures
        forall|i: int| 0 <= i < others(pending, id).len() ==> #[trigger] others(pending, id)[i].id
            != id,
    decreases pending.len(),
{
    if pending.len() > 0 {
        others_are_others(pending.drop_last(), id);
    }
}

// --------------------------------------------------------------- answers

/// How many of the statements carry the ticket.
pub open spec fn carried(pending: Seq<Pending>, ticket: u64) -> nat
    decreases pending.len(),
{
    if pending.len() == 0 {
        0
    } else {
        carried(pending.drop_last(), ticket) + if pending.last().ticket == ticket {
            1nat
        } else {
            0nat
        }
    }
}

/// How many answers to the ticket are still owed.
pub open spec fn owed(s: WorkerState, ticket: u64) -> nat {
    carried(s.pending, ticket) + match s.running {
        Some(r) => if r.ticket == ticket {
            1nat
        } else {
            0nat
        },
        None => 0,
    }
}

/// How many answers to the ticket the effects give.
pub open spec fn answers(effects: Seq<Effect>, ticket: u64) -> nat
    decreases effects.len(),
{
    if effects.len() == 0 {
        0
    } else {
        answers(effects.drop_last(), ticket) + match effects.last() {
            Effect::Reply { ticket: t, .. } => if t == ticket {
                1nat
            } else {
                0nat
            },
            _ => 0,
        }
    }
}

/// How many answers to the ticket the input asks for.
pub open spec fn asked(input: Input, ticket: u64) -> nat {
    match input {
        Input::Job { job: Job::Opened { ticket: t, .. } } => if t == ticket {
            1
        } else {
            0
        },
        Input::Job { job: Job::Req { ticket: t, .. } } => if t == ticket {
            1
        } else {
            0
        },
        Input::Job { job: Job::Drop { ticket: t, .. } } => if t == ticket {
            1
        } else {
            0
        },
        Input::Finished { .. } => 0,
    }
}

proof fn answers_concat(a: Seq<Effect>, b: Seq<Effect>, ticket: u64)
    ensures
        answers(a + b, ticket) == answers(a, ticket) + answers(b, ticket),
    decreases b.len(),
{
    if b.len() == 0 {
        assert(a + b == a);
    } else {
        answers_concat(a, b.drop_last(), ticket);
        assert((a + b).drop_last() == a + b.drop_last());
    }
}

proof fn answers_of_one(e: Effect, ticket: u64)
    ensures
        answers(seq![e], ticket) == match e {
            Effect::Reply { ticket: t, .. } => if t == ticket {
                1nat
            } else {
                0nat
            },
            _ => 0,
        },
{
    assert(seq![e].drop_last() == Seq::<Effect>::empty());
    assert(answers(Seq::<Effect>::empty(), ticket) == 0);
}

proof fn answers_of_push(a: Seq<Effect>, e: Effect, ticket: u64)
    ensures
        answers(a.push(e), ticket) == answers(a, ticket) + match e {
            Effect::Reply { ticket: t, .. } => if t == ticket {
                1nat
            } else {
                0nat
            },
            _ => 0,
        },
{
    assert(a.push(e).drop_last() == a);
}

proof fn carried_front(pending: Seq<Pending>, ticket: u64)
    requires
        pending.len() > 0,
    ensures
        carried(pending, ticket) == carried(pending.drop_first(), ticket) + if pending[0].ticket
            == ticket {
            1nat
        } else {
            0nat
        },
    decreases pending.len(),
{
    if pending.len() == 1 {
        assert(pending.drop_first() == pending.drop_last());
    } else {
        carried_front(pending.drop_last(), ticket);
        assert(pending.drop_first().drop_last() == pending.drop_last().drop_first());
    }
}

proof fn answers_in_log(id: u64, autocommit: bool, sql: Option<String>, ticket: u64)
    ensures
        answers(exec_log(id, autocommit, sql), ticket) == 0,
{
    let log = exec_log(id, autocommit, sql);
    if log.len() > 0 {
        answers_of_one(log[0], ticket);
        assert(log == seq![log[0]]);
    }
}

proof fn start_answers(s: WorkerState, p: Pending, ticket: u64)
    requires
        s.running is None,
    ensures
        owed(s, ticket) + if p.ticket == ticket {
            1nat
        } else {
            0nat
        } == owed(s.start(p).0, ticket) + answers(s.start(p).1, ticket),
{
    if s.sessions.contains(p.id) {
        answers_of_one(Effect::Run { statement: p }, ticket);
    } else {
        let log = exec_log(p.id, true, crate::worker::logged_sql(p.work));
        answers_in_log(p.id, true, crate::worker::logged_sql(p.work), ticket);
        answers_of_push(log, Effect::Reply { ticket: p.ticket, reply: Reply::NoSession }, ticket);
    }
}

proof fn pump_answers(s: WorkerState, ticket: u64)
    ensures
        owed(s, ticket) == owed(s.pump().0, ticket) + answers(s.pump().1, ticket),
    decreases s.pending.len(),
{
    if s.holder is Some || s.running is Some || s.pending.len() == 0 {
    } else {
        let rest = WorkerState { pending: s.pending.drop_first(), ..s };
        let p = s.pending[0];
        let (mid, fx) = rest.start(p);
        carried_front(s.pending, ticket);
        start_answers(rest, p, ticket);
        pump_answers(mid, ticket);
        answers_concat(fx, mid.pump().1, ticket);
    }
}

proof fn submit_answers(s: WorkerState, p: Pending, ticket: u64)
    requires
        s.running is None,
    ensures
        owed(s, ticket) + if p.ticket == ticket {
            1nat
        } else {
            0nat
        } == owed(s.submit(p).0, ticket) + answers(s.submit(p).1, ticket),
{
    if s.holder is Some && s.holder != Some(p.id) {
        assert(s.pending.push(p).drop_last() == s.pending);
        answers_of_one(Effect::Log { event: LogEvent::Queued { id: p.id } }, ticket);
    } else {
        start_answers(s, p, ticket);
        pump_answers(s.start(p).0, ticket);
        answers_concat(s.start(p).1, s.start(p).0.pump().1, ticket);
    }
}

proof fn forget_answers(pending: Seq<Pending>, id: u64, ticket: u64)
    ensures
        carried(pending, ticket) == carried(others(pending, id), ticket) + answers(
            closed_replies(pending, id),
            ticket,
        ),
    decreases pending.len(),
{
    if pending.len() > 0 {
        let p = pending.last();
        forget_answers(pending.drop_last(), id, ticket);
        if p.id == id {
            answers_of_push(
                closed_replies(pending.drop_last(), id),
                Effect::Reply { ticket: p.ticket, reply: Reply::SessionClosed },
                ticket,
            );
        } else {
            assert(others(pending, id).drop_last() == others(pending.drop_last(), id));
        }
    }
}

proof fn end_answers(s: WorkerState, id: u64, t: u64, reply: Reply, ticket: u64)
    requires
        s.running is None,
    ensures
        owed(s, ticket) + if t == ticket {
            1nat
        } else {
            0nat
        } == owed(s.end(id, t, reply).0, ticket) + answers(s.end(id, t, reply).1, ticket),
{
    let (mid, fx) = s.forget(id);
    let close = if s.sessions.contains(id) {
        seq![Effect::CloseConnection { id }]
    } else {
        seq![]
    };
    let release = if s.holder == Some(id) {
        seq![Effect::Log { event: LogEvent::Release { id } }]
    } else {
        seq![]
    };
    forget_answers(s.pending, id, ticket);
    answers_of_one(Effect::CloseConnection { id }, ticket);
    answers_of_one(Effect::Log { event: LogEvent::Release { id } }, ticket);
    answers_concat(close, closed_replies(s.pending, id), ticket);
    answers_concat(close + closed_replies(s.pending, id), release, ticket);
    assert(answers(fx, ticket) == answers(closed_replies(s.pending, id), ticket));
    answers_of_push(fx, Effect::Reply { ticket: t, reply }, ticket);
    pump_answers(mid, ticket);
    answers_concat(fx.push(Effect::Reply { ticket: t, reply }), mid.pump().1, ticket);
}

/// Every request is answered once: an answer that is asked for is either given
/// or still owed, and none is given that was not asked for.
pub proof fn every_request_is_answered_once(s: WorkerState, input: Input, ticket: u64)
    requires
        accepts(s, input),
    ensures
        owed(s, ticket) + asked(input, ticket) == owed(step(s, input).0, ticket) + answers(
            step(s, input).1,
            ticket,
        ),
{
    match input {
        Input::Job { job } => match job {
            Job::Opened { id, ticket: t, failure } => {
                let next = if failure is None {
                    WorkerState { sessions: s.sessions.insert(id), ..s }
                } else {
                    s
                };
                let told = Effect::Reply { ticket: t, reply: Reply::Opened { failure } };
                answers_of_one(told, ticket);
                pump_answers(next, ticket);
                answers_concat(seq![told], next.pump().1, ticket);
            },
            Job::Drop { id, ticket: t } => {
                end_answers(s, id, t, Reply::Dropped, ticket);
            },
            Job::Req { id, ticket: t, req } => match req {
                Request::Close => {
                    end_answers(s, id, t, Reply::Closed, ticket);
                },
                Request::Exec { sql, params } => {
                    submit_answers(
                        s,
                        Pending { id, ticket: t, work: Work::Exec { sql, params } },
                        ticket,
                    );
                },
                Request::Prepare { sql } => {
                    submit_answers(
                        s,
                        Pending { id, ticket: t, work: Work::Prepare { sql } },
                        ticket,
                    );
                },
            },
        },
        Input::Finished { response } => {
            let r = s.running->0;
            let released = response.autocommit && s.holder == Some(r.id);
            let next = WorkerState {
                holder: if !response.autocommit {
                    Some(r.id)
                } else if released {
                    None
                } else {
                    s.holder
                },
                running: None,
                ..s
            };
            let release = if released {
                seq![Effect::Log { event: LogEvent::Release { id: r.id } }]
            } else {
                seq![]
            };
            let log = exec_log(r.id, response.autocommit, r.sql);
            let told = Effect::Reply { ticket: r.ticket, reply: Reply::Ran { response } };
            answers_in_log(r.id, response.autocommit, r.sql, ticket);
            answers_of_one(Effect::Log { event: LogEvent::Release { id: r.id } }, ticket);
            answers_of_one(told, ticket);
            pump_answers(next, ticket);
            answers_concat(log, release, ticket);
            answers_concat(log + release, seq![told], ticket);
            answers_concat(log + release + seq![told], next.pump().1, ticket);
        },
    }
}

} // verus!
