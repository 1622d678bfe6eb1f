//! What becomes of each request: a statement runs as it was asked for, waits
//! only for another session's transaction and in the order of its arrival, and
//! its result goes to whoever asked for it.
use vstd::prelude::*;

use crate::protocol::{Request, Response};
use crate::scheduling::{
    ends, history, history_is_serial, open_after, possible, reachable_is_wf, serial, state_after,
    step, Happening, Input,
};
use crate::worker::{
    closed_replies, others, Effect, Job, LogEvent, Pending, Reply, Work, WorkerState,
};

verus! {

/// Whether the input asks for the statement.
pub open spec fn asks_for(input: Input, p: Pending) -> bool {
    match p.work {
        Work::Exec { sql, params } => input == (Input::Job {
            job: Job::Req { id: p.id, ticket: p.ticket, req: Request::Exec { sql, params } },
        }),
        Work::Prepare { sql } => input == (Input::Job {
            job: Job::Req { id: p.id, ticket: p.ticket, req: Request::Prepare { sql } },
        }),
    }
}

/// The ticket of an input, if it has one.
pub open spec fn ticket_of(input: Input) -> Option<u64> {
    match input {
        Input::Job { job: Job::Opened { ticket, .. } } => Some(ticket),
        Input::Job { job: Job::Req { ticket, .. } } => Some(ticket),
        Input::Job { job: Job::Drop { ticket, .. } } => Some(ticket),
        Input::Finished { .. } => None,
    }
}

/// What the last of the inputs brings about.
pub open spec fn last_effects(inputs: Seq<Input>) -> Seq<Effect> {
    step(state_after(inputs.drop_last()), inputs.last()).1
}

/// Whether the statements were asked for by the inputs at these positions.
pub open spec fn arrived(inputs: Seq<Input>, pending: Seq<Pending>, at: Seq<int>) -> bool {
    &&& at.len() == pending.len()
    &&& forall|i: int|
        0 <= i < at.len() ==> 0 <= #[trigger] at[i] < inputs.len() && asks_for(
            inputs[at[i]],
            pending[i],
        )
    &&& forall|i: int, j: int| 0 <= i < j < at.len() ==> #[trigger] at[i] < #[trigger] at[j]
}

// ---------------------------------------------------------------- helpers

proof fn pump_from_the_front(s: WorkerState)
    ensures
        ({
            let (next, e) = s.pump();
            let n = s.pending.len() - next.pending.len();
            &&& 0 <= n <= s.pending.len()
            &&& next.pending == s.pending.skip(n)
            &&& next.sessions == s.sessions
            &&& next.holder == s.holder
            &&& forall|k: int|
                0 <= k < e.len() ==> {
                    &&& #[trigger] e[k] is Run ==> {
                        &&& n > 0
                        &&& k == e.len() - 1
                        &&& e[k]->statement == s.pending[n - 1]
                        &&& s.sessions.contains(e[k]->statement.id)
                    }
                    &&& e[k] matches Effect::Reply { ticket, reply } ==> reply == Reply::NoSession
                        && exists|i: int|
                        0 <= i < n && #[trigger] s.pending[i].ticket == ticket
                            && !s.sessions.contains(s.pending[i].id)
                    &&& e[k] !is CloseConnection
                    &&& e[k] matches Effect::Log { event } ==> (event matches LogEvent::Exec {
                        autocommit,
                        ..
                    } && autocommit)
                }
            &&& if s.running is Some {
                next.running == s.running && e.len() == 0
            } else {
                is_started(next, e)
            }
        }),
    decreases s.pending.len(),
{
    if s.holder is Some || s.running is Some || s.pending.len() == 0 {
        assert(s.pending.skip(0) == s.pending);
    } else {
        let rest = WorkerState { pending: s.pending.drop_first(), ..s };
        let p = s.pending[0];
        let (mid, fx) = rest.start(p);
        pump_from_the_front(mid);
        let (next, e) = s.pump();
        let n = s.pending.len() - next.pending.len();
        assert(mid.pending.skip(n - 1) == s.pending.skip(n));
        assert forall|k: int| 0 <= k < e.len() implies {
            &&& #[trigger] e[k] is Run ==> {
                &&& n > 0
                &&& k == e.len() - 1
                &&& e[k]->statement == s.pending[n - 1]
                &&& s.sessions.contains(e[k]->statement.id)
            }
            &&& e[k] matches Effect::Reply { ticket, reply } ==> reply == Reply::NoSession
                && exists|i: int|
                0 <= i < n && #[trigger] s.pending[i].ticket == ticket && !s.sessions.contains(
                    s.pending[i].id,
                )
            &&& e[k] !is CloseConnection
            &&& e[k] matches Effect::Log { event } ==> (event matches LogEvent::Exec {
                autocommit,
                ..
            } && autocommit)
        } by {
            if k < fx.len() {
                assert(e[k] == fx[k]);
                assert(s.pending[0].ticket == p.ticket);
            } else {
                let m = mid.pump().1;
                assert(e[k] == m[k - fx.len()]);
                if e[k] is Reply {
                    let i = choose|i: int|
                        0 <= i < n - 1 && #[trigger] mid.pending[i].ticket == e[k]->ticket
                            && !mid.sessions.contains(mid.pending[i].id);
                    assert(s.pending[i + 1] == mid.pending[i]);
                }
            }
        }
    }
}

/// Whether a statement is running if, and only if, the last effect started it.
pub open spec fn is_started(s: WorkerState, e: Seq<Effect>) -> bool {
    match s.running {
        Some(r) => e.len() > 0 && (e.last() matches Effect::Run { statement } && statement.id == r.id
            && statement.ticket == r.ticket && r.sql == match statement.work {
            Work::Exec { sql, .. } => Some(sql),
            Work::Prepare { .. } => None,
        }),
        None => e.len() > 0 ==> e.last() !is Run,
    }
}

/// The statement that a request asks for.
pub open spec fn statement_of(id: u64, ticket: u64, req: Request) -> Option<Pending> {
    match req {
        Request::Exec { sql, params } => Some(
            Pending { id, ticket, work: Work::Exec { sql, params } },
        ),
        Request::Prepare { sql } => Some(Pending { id, ticket, work: Work::Prepare { sql } }),
        Request::Close => None,
    }
}

proof fn others_arrived(
    inputs: Seq<Input>,
    pending: Seq<Pending>,
    id: u64,
    at: Seq<int>,
) -> (b: Seq<int>)
    requires
        arrived(inputs, pending, at),
    ensures
        arrived(inputs, others(pending, id), b),
        b.len() > 0 ==> at.len() > 0 && b.last() <= at.last(),
    decreases pending.len(),
{
    if pending.len() == 0 {
        at
    } else {
        let b = others_arrived(inputs, pending.drop_last(), id, at.drop_last());
        if pending.last().id == id {
            b
        } else {
            b.push(at.last())
        }
    }
}

proof fn arrived_rest(inputs: Seq<Input>, pending: Seq<Pending>, at: Seq<int>, n: int)
    requires
        arrived(inputs, pending, at),
        0 <= n <= pending.len(),
    ensures
        arrived(inputs, pending.skip(n), at.skip(n)),
{
}

/// The state in which the next waiting statement is looked for.
spec fn before_pump(s: WorkerState, input: Input) -> WorkerState {
    match input {
        Input::Job { job: Job::Opened { id, failure, .. } } => if failure is None {
            WorkerState { sessions: s.sessions.insert(id), ..s }
        } else {
            s
        },
        Input::Job { job: Job::Drop { id, .. } } => s.forget(id).0,
        Input::Job { job: Job::Req { id, ticket, req } } => match statement_of(id, ticket, req) {
            None => s.forget(id).0,
            Some(p) => s.start(p).0,
        },
        Input::Finished { response } => WorkerState {
            holder: if !response.autocommit {
                Some(s.running->0.id)
            } else if s.holder == Some(s.running->0.id) {
                None
            } else {
                s.holder
            },
            running: None,
            ..s
        },
    }
}

/// Waiting statements stand in the order of their arrival.
pub proof fn waiting_statements_stand_in_order(inputs: Seq<Input>) -> (at: Seq<int>)
    requires
        possible(inputs),
    ensures
        arrived(inputs, state_after(inputs).pending, at),
    decreases inputs.len(),
{
    if inputs.len() == 0 {
        seq![]
    } else {
        let before = inputs.drop_last();
        let at = waiting_statements_stand_in_order(before);
        let s = state_after(before);
        let input = inputs.last();
        let next = state_after(inputs);
        assert(arrived(inputs, s.pending, at));
        let mid = before_pump(s, input);
        pump_from_the_front(mid);
        let n = mid.pending.len() - mid.pump().0.pending.len();
        match input {
            Input::Job { job: Job::Opened { .. } } => {
                arrived_rest(inputs, s.pending, at, n);
                at.skip(n)
            },
            Input::Job { job: Job::Drop { id, .. } } => {
                let b = others_arrived(inputs, s.pending, id, at);
                arrived_rest(inputs, mid.pending, b, n);
                b.skip(n)
            },
            Input::Job { job: Job::Req { id, ticket, req } } => match statement_of(id, ticket, req) {
                None => {
                    let b = others_arrived(inputs, s.pending, id, at);
                    arrived_rest(inputs, mid.pending, b, n);
                    b.skip(n)
                },
                Some(p) => {
                    if s.holder is Some && s.holder != Some(id) {
                        assert(next.pending == s.pending.push(p));
                        at.push(inputs.len() - 1)
                    } else {
                        arrived_rest(inputs, s.pending, at, n);
                        at.skip(n)
                    }
                },
            },
            Input::Finished { .. } => {
                arrived_rest(inputs, s.pending, at, n);
                at.skip(n)
            },
        }
    }
}

proof fn replies_are_no_runs(pending: Seq<Pending>, id: u64)
    ensures
        forall|k: int|
            0 <= k < closed_replies(pending, id).len() ==> (#[trigger] closed_replies(pending, id)[k]
                matches Effect::Reply { ticket, reply } && reply == Reply::SessionClosed && exists|
                i: int,
            |
                0 <= i < pending.len() && #[trigger] pending[i].ticket == ticket && pending[i].id
                    == id),
    decreases pending.len(),
{
    if pending.len() > 0 {
        let less = pending.drop_last();
        replies_are_no_runs(less, id);
        let r = closed_replies(pending, id);
        assert forall|k: int| 0 <= k < r.len() implies (
        #[trigger] r[k] matches Effect::Reply { ticket, reply } && reply == Reply::SessionClosed
            && exists|i: int|
            0 <= i < pending.len() && #[trigger] pending[i].ticket == ticket && pending[i].id
                == id) by {
            if k < closed_replies(less, id).len() {
                assert(closed_replies(less, id)[k] == r[k]);
                let i = choose|i: int|
                    0 <= i < less.len() && #[trigger] less[i].ticket == r[k]->ticket && less[i].id
                        == id;
                assert(pending[i] == less[i]);
            } else {
                assert(pending[pending.len() - 1].id == id);
            }
        }
    }
}

/// A statement runs as it was asked for: with the same text and the same
/// parameters, and to the end or only compiled as the request says, whether it
/// had to wait or not. It is run for the session that asked, and no statement is
/// run while one that came before it could be run in its place: those that still
/// wait came later, unless the session that runs is inside a transaction.
pub proof fn statements_run_as_they_were_asked(inputs: Seq<Input>, k: int) -> (j: int)
    requires
        possible(inputs),
        inputs.len() > 0,
        0 <= k < last_effects(inputs).len(),
        last_effects(inputs)[k] is Run,
    ensures
        0 <= j < inputs.len(),
        asks_for(inputs[j], last_effects(inputs)[k]->statement),
        state_after(inputs).holder is None ==> exists|at: Seq<int>|
            #![trigger arrived(inputs, state_after(inputs).pending, at)]
            {
                &&& arrived(inputs, state_after(inputs).pending, at)
                &&& forall|i: int| 0 <= i < at.len() ==> j < #[trigger] at[i]
            },
{
    let before = inputs.drop_last();
    let s = state_after(before);
    let input = inputs.last();
    let e = last_effects(inputs);
    let p = e[k]->statement;
    let at = waiting_statements_stand_in_order(before);
    reachable_is_wf(before);
    assert(arrived(inputs, s.pending, at));
    let mid = before_pump(s, input);
    let m = mid.pump().1;
    pump_from_the_front(mid);
    let n = mid.pending.len() - mid.pump().0.pending.len();
    match input {
        Input::Job { job: Job::Req { id, ticket, req } } if statement_of(id, ticket, req) is Some => {
            let q = statement_of(id, ticket, req)->0;
            let fx = s.start(q).1;
            if s.holder is Some && s.holder != Some(id) {
                assert(e == s.submit(q).1);
            } else if k < fx.len() {
                assert(e[k] == fx[k]);
            } else {
                assert(e[k] == m[k - fx.len()]);
            }
            assert(p == q);
            if state_after(inputs).holder is None {
                assert(arrived(inputs, state_after(inputs).pending, Seq::<int>::empty()));
            }
            inputs.len() - 1
        },
        _ => {
            let head = e.len() - m.len();
            let all = match input {
                Input::Job { job: Job::Opened { .. } } => at,
                Input::Job { job: Job::Drop { id, .. } } => {
                    replies_are_no_runs(s.pending, id);
                    others_arrived(inputs, s.pending, id, at)
                },
                Input::Job { job: Job::Req { id, .. } } => {
                    replies_are_no_runs(s.pending, id);
                    others_arrived(inputs, s.pending, id, at)
                },
                Input::Finished { .. } => at,
            };
            assert(k >= head);
            assert(e[k] == m[k - head]);
            arrived_rest(inputs, mid.pending, all, n);
            assert(p == mid.pending[n - 1]);
            assert(arrived(inputs, state_after(inputs).pending, all.skip(n)));
            all[n - 1]
        },
    }
}

/// A request that is the only one with its ticket is run as it was made.
pub proof fn a_request_is_run_as_it_was_made(inputs: Seq<Input>, j: int, k: int)
    requires
        possible(inputs),
        inputs.len() > 0,
        0 <= j < inputs.len(),
        inputs[j] matches Input::Job { job: Job::Req { .. } },
        forall|i: int| 0 <= i < inputs.len() && i != j ==> ticket_of(#[trigger] inputs[i])
            != ticket_of(inputs[j]),
        0 <= k < last_effects(inputs).len(),
        last_effects(inputs)[k] matches Effect::Run { statement } && ticket_of(inputs[j]) == Some(
            statement.ticket,
        ),
    ensures
        ({
            let p = last_effects(inputs)[k]->statement;
            match inputs[j] {
                Input::Job { job: Job::Req { id, req: Request::Exec { sql, params }, .. } } => p.id
                    == id && p.work == (Work::Exec { sql, params }),
                Input::Job { job: Job::Req { id, req: Request::Prepare { sql }, .. } } => p.id == id
                    && p.work == (Work::Prepare { sql }),
                _ => false,
            }
        }),
{
    let i = statements_run_as_they_were_asked(inputs, k);
    let p = last_effects(inputs)[k]->statement;
    assert(ticket_of(inputs[i]) == Some(p.ticket));
    assert(i == j);
}

// --------------------------------------------------------------- sessions

/// Whether the session was opened and has not ended since.
pub open spec fn is_open(inputs: Seq<Input>, id: u64) -> bool
    decreases inputs.len(),
{
    inputs.len() > 0 && match inputs.last() {
        Input::Job { job: Job::Opened { id: i, failure, .. } } => (i == id && failure is None)
            || is_open(inputs.drop_last(), id),
        Input::Job { job: Job::Drop { id: i, .. } } => i != id && is_open(inputs.drop_last(), id),
        Input::Job { job: Job::Req { id: i, req: Request::Close, .. } } => i != id && is_open(
            inputs.drop_last(),
            id,
        ),
        _ => is_open(inputs.drop_last(), id),
    }
}

/// Whether the session is inside a transaction: a statement of it left its
/// connection in one, and none has ended it since.
pub open spec fn in_transaction(inputs: Seq<Input>, id: u64) -> bool {
    exists|i: int|
        0 <= i < history(inputs).len() && #[trigger] history(inputs)[i] == (Happening::Ran {
            id,
            autocommit: false,
        }) && forall|k: int|
            i < k < history(inputs).len() ==> !ends(#[trigger] history(inputs)[k], id)
}

/// A session has a connection if, and only if, it was opened and has not ended.
pub proof fn sessions_are_those_opened(inputs: Seq<Input>, id: u64)
    requires
        possible(inputs),
    ensures
        state_after(inputs).sessions.contains(id) <==> is_open(inputs, id),
    decreases inputs.len(),
{
    if inputs.len() > 0 {
        let before = inputs.drop_last();
        sessions_are_those_opened(before, id);
        pump_from_the_front(before_pump(state_after(before), inputs.last()));
    }
}

proof fn open_is_a_run(h: Seq<Happening>, a: u64)
    requires
        serial(h),
    ensures
        open_after(h) == Some(a) <==> exists|i: int|
            0 <= i < h.len() && #[trigger] h[i] == (Happening::Ran { id: a, autocommit: false })
                && forall|k: int| i < k < h.len() ==> !ends(#[trigger] h[k], a),
    decreases h.len(),
{
    if h.len() > 0 {
        let g = h.drop_last();
        assert forall|j: int| 0 <= j < g.len() implies (
        #[trigger] g[j] matches Happening::Ran { id, .. } ==> open_after(g.take(j)) is None
            || open_after(g.take(j)) == Some(id)) by {
            assert(g.take(j) == h.take(j));
            assert(h[j] == g[j]);
        }
        open_is_a_run(g, a);
        let last = h[h.len() - 1];
        assert(h.take(h.len() - 1) == g);
        if open_after(h) == Some(a) {
            if last == (Happening::Ran { id: a, autocommit: false }) {
                assert(h[h.len() - 1] == last);
            } else {
                assert(open_after(g) == Some(a));
                let i = choose|i: int|
                    0 <= i < g.len() && #[trigger] g[i] == (Happening::Ran {
                        id: a,
                        autocommit: false,
                    }) && forall|k: int| i < k < g.len() ==> !ends(#[trigger] g[k], a);
                assert(h[i] == g[i]);
                assert forall|k: int| i < k < h.len() implies !ends(#[trigger] h[k], a) by {
                    if k < g.len() {
                        assert(h[k] == g[k]);
                    }
                }
            }
        }
        if exists|i: int|
            0 <= i < h.len() && #[trigger] h[i] == (Happening::Ran { id: a, autocommit: false })
                && forall|k: int| i < k < h.len() ==> !ends(#[trigger] h[k], a) {
            let i = choose|i: int|
                0 <= i < h.len() && #[trigger] h[i] == (Happening::Ran { id: a, autocommit: false })
                    && forall|k: int| i < k < h.len() ==> !ends(#[trigger] h[k], a);
            if i < g.len() {
                assert(g[i] == h[i]);
                assert forall|k: int| i < k < g.len() implies !ends(#[trigger] g[k], a) by {
                    assert(g[k] == h[k]);
                }
                assert(open_after(g) == Some(a));
                assert(!ends(h[h.len() - 1], a));
            }
        }
    }
}

/// The file is held by the session that is inside a transaction, and by no other.
pub proof fn the_holder_is_in_a_transaction(inputs: Seq<Input>, id: u64)
    requires
        possible(inputs),
    ensures
        state_after(inputs).holder == Some(id) <==> in_transaction(inputs, id),
{
    history_is_serial(inputs);
    open_is_a_run(history(inputs), id);
}

/// A statement waits where another session is inside a transaction, and only
/// there: any other runs at once. A session that is not open is told so.
pub proof fn statements_wait_only_for_transactions(inputs: Seq<Input>, p: Pending)
    requires
        possible(inputs),
        inputs.len() > 0,
        asks_for(inputs.last(), p),
    ensures
        ({
            let before = inputs.drop_last();
            let e = last_effects(inputs);
            if exists|other: u64| other != p.id && in_transaction(before, other) {
                &&& e == seq![Effect::Log { event: LogEvent::Queued { id: p.id } }]
                &&& state_after(inputs).pending.len() > 0
                &&& state_after(inputs).pending.last() == p
            } else if is_open(before, p.id) {
                e == seq![Effect::Run { statement: p }]
            } else {
                e == match p.work {
                    Work::Exec { sql, .. } => seq![
                        Effect::Log { event: LogEvent::Exec { id: p.id, autocommit: true, sql } },
                        Effect::Reply { ticket: p.ticket, reply: Reply::NoSession },
                    ],
                    Work::Prepare { .. } => seq![
                        Effect::Reply { ticket: p.ticket, reply: Reply::NoSession },
                    ],
                }
            }
        }),
{
    let before = inputs.drop_last();
    let s = state_after(before);
    reachable_is_wf(before);
    sessions_are_those_opened(before, p.id);
    the_holder_is_in_a_transaction(before, p.id);
    if s.holder is Some {
        the_holder_is_in_a_transaction(before, s.holder->0);
    }
    assert forall|other: u64| other != p.id && in_transaction(before, other) implies s.holder
        == Some(other) by {
        the_holder_is_in_a_transaction(before, other);
    }
    pump_from_the_front(s.start(p).0);
    let next = s.start(p).0;
    if !(s.holder is Some && s.holder != Some(p.id)) {
        assert(next.pump().1 == Seq::<Effect>::empty());
        assert(last_effects(inputs) == s.start(p).1 + next.pump().1);
    }
}

/// What runs is what the last effect started, and a result can only come for it.
pub proof fn what_runs_was_started_last(inputs: Seq<Input>)
    requires
        possible(inputs),
    ensures
        inputs.len() == 0 ==> state_after(inputs).running is None,
        inputs.len() > 0 ==> is_started(state_after(inputs), last_effects(inputs)),
{
    if inputs.len() > 0 {
        let before = inputs.drop_last();
        let s = state_after(before);
        let input = inputs.last();
        let mid = before_pump(s, input);
        pump_from_the_front(mid);
        let e = last_effects(inputs);
        let m = mid.pump().1;
        if m.len() > 0 {
            assert(e.last() == m.last());
        }
        match input {
            Input::Job { job: Job::Drop { id, .. } } => {
                replies_are_no_runs(s.pending, id);
            },
            Input::Job { job: Job::Req { id, ticket, req } } => {
                replies_are_no_runs(s.pending, id);
                if let Some(p) = statement_of(id, ticket, req) {
                    assert(s.start(p).1.len() > 0);
                }
            },
            _ => {},
        }
    }
}

/// Whether an effect belongs to the start of a waiting statement: it is run, or
/// refused because its session is gone.
pub open spec fn is_of_a_start(inputs: Seq<Input>, waiting: Seq<Pending>, e: Effect) -> bool {
    match e {
        Effect::Run { statement } => waiting.contains(statement) && is_open(inputs, statement.id),
        Effect::Reply { ticket, reply } => reply == Reply::NoSession && exists|i: int|
            0 <= i < waiting.len() && #[trigger] waiting[i].ticket == ticket && !is_open(
                inputs,
                waiting[i].id,
            ),
        Effect::Log { event } => event matches LogEvent::Exec { autocommit, .. } && autocommit,
        Effect::CloseConnection { .. } => false,
    }
}

proof fn pump_only_starts(inputs: Seq<Input>, s: WorkerState, k: int)
    requires
        forall|id: u64| #[trigger] s.sessions.contains(id) <==> is_open(inputs, id),
        0 <= k < s.pump().1.len(),
    ensures
        is_of_a_start(inputs, s.pending, s.pump().1[k]),
{
    pump_from_the_front(s);
    let e = s.pump().1[k];
    if e is Run {
        let n = s.pending.len() - s.pump().0.pending.len();
        assert(s.pending[n - 1] == e->statement);
    }
}

proof fn all_sessions_are_open(inputs: Seq<Input>)
    requires
        possible(inputs),
    ensures
        forall|id: u64| #[trigger]
            state_after(inputs).sessions.contains(id) <==> is_open(inputs, id),
{
    assert forall|id: u64| #[trigger]
        state_after(inputs).sessions.contains(id) <==> is_open(inputs, id) by {
        sessions_are_those_opened(inputs, id);
    }
}

/// The result of a statement goes to whoever asked for it, once, as it is. What
/// ran is logged, and the file is free again where the statement ended the
/// transaction of its session; then those that wait are started.
pub proof fn a_result_goes_to_who_asked(inputs: Seq<Input>, response: Response)
    requires
        possible(inputs),
        inputs.len() > 0,
        inputs.last() == (Input::Finished { response }),
    ensures
        inputs.len() > 1,
        ({
            let before = inputs.drop_last();
            let ran = last_effects(before).last();
            let e = last_effects(inputs);
            &&& last_effects(before).len() > 0
            &&& ran is Run
            &&& ({
                let p = ran->statement;
                let logged = match p.work {
                    Work::Exec { sql, .. } => seq![
                        Effect::Log {
                            event: LogEvent::Exec {
                                id: p.id,
                                autocommit: response.autocommit,
                                sql,
                            },
                        },
                    ],
                    Work::Prepare { .. } => seq![],
                };
                let released = if response.autocommit && in_transaction(before, p.id) {
                    seq![Effect::Log { event: LogEvent::Release { id: p.id } }]
                } else {
                    seq![]
                };
                let head = (logged + released).push(
                    Effect::Reply { ticket: p.ticket, reply: Reply::Ran { response } },
                );
                &&& head.len() <= e.len()
                &&& e.take(head.len() as int) == head
                &&& forall|k: int|
                    head.len() <= k < e.len() ==> is_of_a_start(
                        inputs,
                        state_after(before).pending,
                        #[trigger] e[k],
                    )
            })
        }),
{
    let before = inputs.drop_last();
    let s = state_after(before);
    reachable_is_wf(before);
    what_runs_was_started_last(before);
    let p = last_effects(before).last()->statement;
    the_holder_is_in_a_transaction(before, p.id);
    let mid = before_pump(s, inputs.last());
    let e = last_effects(inputs);
    let m = mid.pump().1;
    pump_from_the_front(mid);
    all_sessions_are_open(inputs);
    let n = e.len() - m.len();
    assert(e == e.take(n) + m);
    assert forall|k: int| n <= k < e.len() implies is_of_a_start(
        inputs,
        s.pending,
        #[trigger] e[k],
    ) by {
        pump_only_starts(inputs, mid, k - n);
        assert(e[k] == m[k - n]);
    }
}

/// The end of a session closes its connection, answers each of its waiting
/// statements in order, frees the file where it held it, and is confirmed; then
/// those that wait are started.
pub proof fn a_session_ends_completely(inputs: Seq<Input>, id: u64, ticket: u64, reply: Reply)
    requires
        possible(inputs),
        inputs.len() > 0,
        (inputs.last() == (Input::Job { job: Job::Drop { id, ticket } }) && reply == Reply::Dropped)
            || (inputs.last() == (Input::Job {
            job: Job::Req { id, ticket, req: Request::Close },
        }) && reply == Reply::Closed),
    ensures
        ({
            let before = inputs.drop_last();
            let e = last_effects(inputs);
            let closed = if is_open(before, id) {
                seq![Effect::CloseConnection { id }]
            } else {
                seq![]
            };
            let told = state_after(before).pending.filter(|p: Pending| p.id == id).map_values(
                |p: Pending| Effect::Reply { ticket: p.ticket, reply: Reply::SessionClosed },
            );
            let released = if in_transaction(before, id) {
                seq![Effect::Log { event: LogEvent::Release { id } }]
            } else {
                seq![]
            };
            let head = (closed + told + released).push(Effect::Reply { ticket, reply });
            &&& head.len() <= e.len()
            &&& e.take(head.len() as int) == head
            &&& forall|k: int|
                head.len() <= k < e.len() ==> is_of_a_start(
                    inputs,
                    state_after(before).pending,
                    #[trigger] e[k],
                )
        }),
{
    let before = inputs.drop_last();
    let s = state_after(before);
    reachable_is_wf(before);
    the_holder_is_in_a_transaction(before, id);
    sessions_are_those_opened(before, id);
    closed_replies_are_of_the_session(s.pending, id);
    let mid = s.forget(id).0;
    let e = last_effects(inputs);
    let m = mid.pump().1;
    pump_from_the_front(mid);
    all_sessions_are_open(inputs);
    let n = e.len() - m.len();
    assert(e == e.take(n) + m);
    assert forall|k: int| n <= k < e.len() implies is_of_a_start(
        inputs,
        s.pending,
        #[trigger] e[k],
    ) by {
        pump_only_starts(inputs, mid, k - n);
        assert(e[k] == m[k - n]);
        others_are_among(s.pending, id);
    }
}

proof fn others_are_among(pending: Seq<Pending>, id: u64)
    ensures
        forall|i: int|
            0 <= i < others(pending, id).len() ==> pending.contains(
                #[trigger] others(pending, id)[i],
            ),
        forall|p: Pending| others(pending, id).contains(p) ==> #[trigger] pending.contains(p),
    decreases pending.len(),
{
    if pending.len() > 0 {
        let less = pending.drop_last();
        others_are_among(less, id);
        assert forall|i: int| 0 <= i < others(pending, id).len() implies pending.contains(
            #[trigger] others(pending, id)[i],
        ) by {
            let p = others(pending, id)[i];
            if i < others(less, id).len() {
                assert(others(less, id)[i] == p);
                let j = choose|j: int| 0 <= j < less.len() && less[j] == p;
                assert(pending[j] == p);
            } else {
                assert(pending[pending.len() - 1] == p);
            }
        }
    }
}

proof fn closed_replies_are_of_the_session(pending: Seq<Pending>, id: u64)
    ensures
        closed_replies(pending, id) == pending.filter(|p: Pending| p.id == id).map_values(
            |p: Pending| Effect::Reply { ticket: p.ticket, reply: Reply::SessionClosed },
        ),
    decreases pending.len(),
{
    reveal(Seq::filter);
    if pending.len() > 0 {
        closed_replies_are_of_the_session(pending.drop_last(), id);
    }
}

/// Opening a session is answered with how it went, and nothing else happens.
pub proof fn opening_is_answered(inputs: Seq<Input>, id: u64, ticket: u64, failure: Option<String>)
    requires
        possible(inputs),
        inputs.len() > 0,
        inputs.last() == (Input::Job { job: Job::Opened { id, ticket, failure } }),
    ensures
        last_effects(inputs) == seq![Effect::Reply { ticket, reply: Reply::Opened { failure } }],
        state_after(inputs).pending == state_after(inputs.drop_last()).pending,
{
    let s = state_after(inputs.drop_last());
    reachable_is_wf(inputs.drop_last());
    let mid = before_pump(s, inputs.last());
    assert(mid.pump().1 == Seq::<Effect>::empty());
}

} // verus!
