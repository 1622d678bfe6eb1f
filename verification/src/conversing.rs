//! What a call, a session and the conversation with a client promise: every
//! statement is run as it was given and in its order, every result is told, and
//! nothing is done that was not asked for.
use vstd::prelude::*;

use crate::broker::{client_step, ClientAction, ClientEvent, ClientPhase};
use crate::client::{gives_rows, row_views};
use crate::load::{DbEvent, Deed};
use crate::number::decimal_int;
use crate::protocol::Request;
use crate::session::{
    session_step, CallPhase, CallState, CallStep, SessionDeed, SessionEvent, SessionPhase,
    SessionStep,
};
use crate::text::{
    begins_with, index_of, index_of_is_first, is_space, join, texts, trim, trim_start, upper,
};

verus! {

/// Whether the lines show the rows: one line for each, with its label and the
/// values of the row.
pub open spec fn show_rows(
    lines: Seq<Seq<char>>,
    rows: Seq<Vec<String>>,
    label: Seq<char>,
    sep: Seq<char>,
) -> bool {
    &&& lines.len() == rows.len()
    &&& forall|i: int|
        0 <= i < lines.len() ==> #[trigger] lines[i] == label + join(texts(rows[i]@), sep)
}

// -------------------------------------------------------------------- call

/// The last step of a call after some events.
pub open spec fn call_after(sqls: Seq<Seq<char>>, events: Seq<DbEvent>) -> CallStep
    decreases events.len(),
{
    if events.len() == 0 {
        CallStep { state: CallState::begin(sqls), said: seq![], deed: Deed::Open }
    } else {
        call_after(sqls, events.drop_last()).state.step(events.last())
    }
}

/// Whether every event is one that the call waited for.
pub open spec fn all_call_events_awaited(sqls: Seq<Seq<char>>, events: Seq<DbEvent>) -> bool
    decreases events.len(),
{
    events.len() > 0 ==> {
        &&& all_call_events_awaited(sqls, events.drop_last())
        &&& call_after(sqls, events).deed != Deed::Unexpected
    }
}

/// What went wrong, if anything did.
pub open spec fn failure_in(event: DbEvent) -> Option<String> {
    match event {
        DbEvent::Opened { error } => error,
        DbEvent::Executed { error } => error,
        DbEvent::Queried { result: Err(e) } => Some(e),
        DbEvent::Queried { .. } => None,
    }
}

proof fn a_call_is_its_events(sqls: Seq<Seq<char>>, events: Seq<DbEvent>)
    requires
        all_call_events_awaited(sqls, events),
    ensures
        ({
            let s = call_after(sqls, events).state;
            &&& s.sqls == sqls
            &&& s.phase == CallPhase::Opening <==> events.len() == 0
            &&& s.phase == CallPhase::Executing || s.phase == CallPhase::Querying ==> {
                &&& s.at == events.len() - 1
                &&& 0 <= s.at < sqls.len()
                &&& (s.phase == CallPhase::Querying <==> gives_rows(sqls[s.at]))
            }
            &&& s.phase == CallPhase::Over ==> call_after(sqls, events).deed is Failed || call_after(
                sqls,
                events,
            ).deed is Done
            &&& events.len() > 0 && failure_in(events.last()) is Some ==> s.phase
                == CallPhase::Over
            &&& forall|k: int|
                0 <= k < events.len() - 1 ==> failure_in(#[trigger] events[k]) is None
        }),
    decreases events.len(),
{
    if events.len() > 0 {
        let before = events.drop_last();
        a_call_is_its_events(sqls, before);
        assert forall|k: int| 0 <= k < events.len() - 1 implies failure_in(
            #[trigger] events[k],
        ) is None by {
            assert(before[k] == events[k]);
        }
    }
}

/// A call runs its statements in their order, each once: after the opening and
/// as many results as there are statements before it, the next one is a query if
/// it gives rows, and a script if not; after the last the call is done. For a
/// script it prints `ok`, for a query each row, and at a failure it stops with
/// what failed.
pub proof fn a_call_runs_every_statement(sqls: Seq<Seq<char>>, events: Seq<DbEvent>)
    requires
        all_call_events_awaited(sqls, events),
        events.len() > 0,
    ensures
        ({
            let step = call_after(sqls, events);
            let at = events.len() - 1;
            &&& events.len() <= sqls.len() + 1
            &&& match failure_in(events.last()) {
                Some(e) => step.deed == (Deed::Failed { error: e@ }) && step.said.len() == 0,
                None => step.deed == if at == sqls.len() {
                    Deed::Done
                } else if gives_rows(sqls[at]) {
                    Deed::Query { sql: sqls[at] }
                } else {
                    Deed::Exec { sql: sqls[at] }
                },
            }
            &&& match events.last() {
                DbEvent::Opened { .. } => at == 0 && step.said.len() == 0,
                DbEvent::Executed { error } => {
                    &&& at > 0 && !gives_rows(sqls[at - 1])
                    &&& error is None ==> step.said == seq!["ok"@]
                },
                DbEvent::Queried { result } => {
                    &&& at > 0 && gives_rows(sqls[at - 1])
                    &&& result matches Ok(rows) ==> show_rows(step.said, rows@, "cell:"@, ","@)
                },
            }
        }),
{
    let before = events.drop_last();
    a_call_is_its_events(sqls, before);
    a_call_is_its_events(sqls, events);
    if before.len() > 0 {
        assert(failure_in(events[before.len() - 1]) is None);
    }
    if let DbEvent::Queried { result: Ok(rows) } = events.last() {
        assert(row_views(rows@).len() == rows@.len());
        assert forall|i: int| 0 <= i < rows@.len() implies row_views(rows@)[i] == texts(
            #[trigger] rows@[i]@,
        ) by {}
        assert(call_after(sqls, events).said.len() == rows@.len());
        assert forall|i: int| 0 <= i < rows@.len() implies #[trigger] call_after(
            sqls,
            events,
        ).said[i] == "cell:"@ + join(texts(rows@[i]@), ","@) by {
            assert(row_views(rows@)[i] == texts(rows@[i]@));
        }
    }
}

/// Whatever a call asks for, it takes.
pub proof fn a_call_takes_what_it_asks_for(
    sqls: Seq<Seq<char>>,
    events: Seq<DbEvent>,
    event: DbEvent,
)
    requires
        all_call_events_awaited(sqls, events),
        match call_after(sqls, events).deed {
            Deed::Open => event is Opened,
            Deed::Exec { .. } => event is Executed,
            Deed::Query { .. } => event is Queried,
            _ => false,
        },
    ensures
        all_call_events_awaited(sqls, events.push(event)),
{
    a_call_is_its_events(sqls, events);
    if events.len() > 0 {
        a_call_runs_every_statement(sqls, events);
    }
    assert(events.push(event).drop_last() == events);
}

/// Whitespace before a script does not change whether it gives rows.
pub proof fn space_does_not_matter(c: char, sql: Seq<char>)
    requires
        is_space(c),
    ensures
        gives_rows(seq![c] + sql) == gives_rows(sql),
{
    assert((seq![c] + sql).drop_first() == sql);
    assert(trim_start(seq![c] + sql) == trim_start(sql));
}

/// A line of comment before a script does not change whether it gives rows.
pub proof fn comments_do_not_matter(comment: Seq<char>, sql: Seq<char>)
    requires
        !comment.contains('\n'),
    ensures
        gives_rows("--"@ + comment + seq!['\n'] + sql) == gives_rows(sql),
{
    reveal_strlit("--");
    let s = "--"@ + comment + seq!['\n'] + sql;
    assert(s[0] == '-');
    assert(trim_start(s) == s);
    assert(s.take(2) == "--"@);
    let line = s.skip(2);
    assert(line == comment + seq!['\n'] + sql);
    index_of_is_first(line, '\n');
    assert(line[comment.len() as int] == '\n');
    let end = index_of(line, '\n');
    if end < comment.len() {
        assert(comment[end] == '\n');
    }
    assert(end == comment.len());
    assert(line.skip(end + 1) == sql);
}

/// A script that begins with a word gives rows if, and only if, that word begins
/// with SELECT, WITH or EXPLAIN, in upper or lower case.
pub proof fn the_first_word_decides(sql: Seq<char>)
    requires
        sql.len() > 0,
        !is_space(sql[0]),
        sql[0] != '-',
    ensures
        gives_rows(sql) <==> (begins_with(upper(sql), "SELECT"@) || begins_with(
            upper(sql),
            "WITH"@,
        ) || begins_with(upper(sql), "EXPLAIN"@)),
{
    reveal_strlit("--");
    assert(trim_start(sql) == sql);
    if begins_with(sql, "--"@) {
        assert(sql.take(2)[0] == '-');
    }
}

// ----------------------------------------------------------------- session

/// The last step of a session after some events.
pub open spec fn session_after(events: Seq<SessionEvent>) -> SessionStep
    decreases events.len(),
{
    if events.len() == 0 {
        SessionStep {
            phase: SessionPhase::Opening,
            said: seq![],
            deed: SessionDeed::Unexpected,
        }
    } else {
        session_step(session_after(events.drop_last()).phase, events.last())
    }
}

/// Whether every event is one that the session waited for.
pub open spec fn all_session_events_awaited(events: Seq<SessionEvent>) -> bool
    decreases events.len(),
{
    events.len() > 0 ==> {
        &&& all_session_events_awaited(events.drop_last())
        &&& session_after(events).deed != SessionDeed::Unexpected
    }
}

/// Whether the session waits for the word to go on.
pub open spec fn is_holding(events: Seq<SessionEvent>) -> bool
    decreases events.len(),
{
    events.len() > 0 && !is_holding(events.drop_last()) && (events.last()
        matches SessionEvent::Line { line: Some(text) } && text@ == "HOLD"@)
}

proof fn a_session_is_its_events(events: Seq<SessionEvent>)
    requires
        all_session_events_awaited(events),
    ensures
        ({
            let step = session_after(events);
            &&& step.phase == SessionPhase::Opening <==> events.len() == 0
            &&& step.phase == SessionPhase::Holding <==> is_holding(events)
            &&& match step.phase {
                SessionPhase::Opening => true,
                SessionPhase::Reading => step.deed == SessionDeed::ReadLine,
                SessionPhase::Holding => step.deed == SessionDeed::ReadLine,
                SessionPhase::Executing => step.deed is Exec,
                SessionPhase::Querying => step.deed is Query,
                SessionPhase::Over => step.deed is End || step.deed is Exit || step.deed is Failed,
            }
        }),
    decreases events.len(),
{
    reveal_strlit("HOLD");
    reveal_strlit("GO");
    reveal_strlit("EXEC ");
    reveal_strlit("QUERY ");
    if events.len() > 0 {
        a_session_is_its_events(events.drop_last());
    }
}

/// A session does what each line says, tells every result, and then reads the
/// next line; a statement that fails, an unknown command and a missing word end
/// it.
pub proof fn a_session_does_what_each_line_says(events: Seq<SessionEvent>, sql: Seq<char>)
    requires
        all_session_events_awaited(events),
        events.len() > 0,
    ensures
        ({
            let step = session_after(events);
            match events.last() {
                SessionEvent::Opened => step.said == seq!["READY"@] && step.deed
                    == SessionDeed::ReadLine,
                SessionEvent::Line { line: None } => if is_holding(events.drop_last()) {
                    step.said.len() == 0 && step.deed == (SessionDeed::Failed {
                        error: "stdin closed while holding"@,
                    })
                } else {
                    step.said.len() == 0 && step.deed == SessionDeed::End
                },
                SessionEvent::Line { line: Some(text) } => if is_holding(events.drop_last()) {
                    if trim(text@) == "GO"@ {
                        step.said.len() == 0 && step.deed == SessionDeed::ReadLine
                    } else {
                        step.said.len() == 0 && step.deed == (SessionDeed::Failed {
                            error: "expected GO, got "@ + text@,
                        })
                    }
                } else {
                    &&& text@ == "EXEC "@ + sql ==> step.said == seq!["START"@] && step.deed == (
                    SessionDeed::Exec { sql })
                    &&& text@ == "QUERY "@ + sql ==> step.said == seq!["START"@] && step.deed == (
                    SessionDeed::Query { sql })
                    &&& text@ == "HOLD"@ ==> step.said == seq!["HOLDING"@] && step.deed
                        == SessionDeed::ReadLine
                    &&& text@.len() == 0 ==> step.said.len() == 0 && step.deed
                        == SessionDeed::ReadLine
                    &&& text@.len() > 0 && text@ != "HOLD"@ && !begins_with(text@, "EXEC "@)
                        && !begins_with(text@, "QUERY "@) ==> step.said.len() == 0 && step.deed == (
                    SessionDeed::Failed { error: "bad command "@ + text@ })
                },
                SessionEvent::Executed { result: Ok((changes, rowid)) } => {
                    &&& step.deed == SessionDeed::ReadLine
                    &&& step.said == seq![
                        "OK changes="@ + decimal_int(changes as int) + " rowid="@ + decimal_int(
                            rowid as int,
                        ),
                    ]
                },
                SessionEvent::Queried { result: Ok(rows) } => {
                    &&& step.deed == SessionDeed::ReadLine
                    &&& step.said.len() == rows@.len() + 1
                    &&& step.said.last() == "END"@
                    &&& show_rows(step.said.drop_last(), rows@, "ROW "@, "\t"@)
                },
                SessionEvent::Executed { result: Err(e) } => step.said == seq!["ERR "@ + e@]
                    && step.deed == SessionDeed::Exit,
                SessionEvent::Queried { result: Err(e) } => step.said == seq!["ERR "@ + e@]
                    && step.deed == SessionDeed::Exit,
            }
        }),
{
    reveal_strlit("HOLD");
    reveal_strlit("EXEC ");
    reveal_strlit("QUERY ");
    a_session_is_its_events(events.drop_last());
    let exec = "EXEC "@ + sql;
    let query = "QUERY "@ + sql;
    assert(exec.take(5) == "EXEC "@);
    assert(exec.skip(5) == sql);
    assert(query.take(6) == "QUERY "@);
    assert(query.skip(6) == sql);
    if query.len() >= 5 {
        assert(query.take(5)[0] == 'Q');
    }
    if let SessionEvent::Queried { result: Ok(rows) } = events.last() {
        let said = session_after(events).said;
        assert(row_views(rows@).len() == rows@.len());
        assert forall|i: int| 0 <= i < rows@.len() implies #[trigger] said.drop_last()[i] == "ROW "@
            + join(texts(rows@[i]@), "\t"@) by {
            assert(row_views(rows@)[i] == texts(rows@[i]@));
        }
    }
}

/// Whatever a session asks for, it takes.
pub proof fn a_session_takes_what_it_asks_for(events: Seq<SessionEvent>, event: SessionEvent)
    requires
        all_session_events_awaited(events),
        events.len() == 0 ==> event is Opened,
        events.len() > 0 ==> match session_after(events).deed {
            SessionDeed::ReadLine => event is Line,
            SessionDeed::Exec { .. } => event is Executed,
            SessionDeed::Query { .. } => event is Queried,
            _ => false,
        },
    ensures
        all_session_events_awaited(events.push(event)),
{
    a_session_is_its_events(events);
    assert(events.push(event).drop_last() == events);
}

// ------------------------------------------------------------ conversation

/// The conversation with a client after some events, and what is done next.
pub open spec fn client_after(id: u64, events: Seq<ClientEvent>) -> (ClientPhase, ClientAction)
    decreases events.len(),
{
    if events.len() == 0 {
        (ClientPhase::Opening, ClientAction::Unexpected)
    } else {
        client_step(client_after(id, events.drop_last()).0, id, events.last())
    }
}

/// Whether every event is one that the conversation waited for.
pub open spec fn all_client_events_awaited(id: u64, events: Seq<ClientEvent>) -> bool
    decreases events.len(),
{
    events.len() > 0 ==> {
        &&& all_client_events_awaited(id, events.drop_last())
        &&& client_after(id, events).1 != ClientAction::Unexpected
    }
}

/// The request that came last.
pub open spec fn last_request(events: Seq<ClientEvent>) -> Option<Request>
    decreases events.len(),
{
    if events.len() == 0 {
        None
    } else {
        match events.last() {
            ClientEvent::Came { request } => request,
            _ => last_request(events.drop_last()),
        }
    }
}

proof fn a_conversation_is_its_events(id: u64, events: Seq<ClientEvent>)
    requires
        all_client_events_awaited(id, events),
    ensures
        ({
            let (phase, action) = client_after(id, events);
            &&& phase is Opening <==> events.len() == 0
            &&& match phase {
                ClientPhase::Opening => true,
                ClientPhase::Greeting => action is Greet && last_request(events) is None,
                ClientPhase::Reading => action is Read,
                ClientPhase::Waiting { is_close } => action is Submit && last_request(events)
                    is Some && is_close == (last_request(events)->0 is Close),
                ClientPhase::Answering { is_close } => action is Answer && last_request(events)
                    is Some && is_close == (last_request(events)->0 is Close),
                ClientPhase::Over => action is Refuse || action is DropSession || action is Stop,
            }
        }),
    decreases events.len(),
{
    if events.len() > 0 {
        a_conversation_is_its_events(id, events.drop_last());
    }
}

/// A client is greeted with its session, or told why there is none; each of its
/// requests goes to the worker as it came, and each answer to the client as the
/// worker gave it. The conversation goes on until the client asks to close, and
/// the session of a client that is gone is dropped.
pub proof fn a_client_is_served_faithfully(id: u64, events: Seq<ClientEvent>)
    requires
        all_client_events_awaited(id, events),
        events.len() > 0,
    ensures
        ({
            let action = client_after(id, events).1;
            let before = client_after(id, events.drop_last()).1;
            match events.last() {
                ClientEvent::Opened { outcome: Some(Ok(_)) } => action
                    matches ClientAction::Greet { hello } && hello.ok && hello.session == id
                    && hello.error is None,
                ClientEvent::Opened { outcome: Some(Err(why)) } => action
                    matches ClientAction::Refuse { hello } && !hello.ok && hello.session == id
                    && hello.error == Some(why),
                ClientEvent::Opened { outcome: None } => action is Stop,
                ClientEvent::Came { request: Some(request) } => action == (ClientAction::Submit {
                    request,
                }),
                ClientEvent::Came { request: None } => action is DropSession,
                ClientEvent::Answered { response: Some(response) } => action == (
                ClientAction::Answer { response }),
                ClientEvent::Answered { response: None } => action is Stop,
                ClientEvent::Sent { ok } => if before is Answer && last_request(events) == Some(
                    Request::Close,
                ) {
                    action is Stop
                } else if ok {
                    action is Read
                } else {
                    action is DropSession
                },
            }
        }),
{
    a_conversation_is_its_events(id, events.drop_last());
}

/// Whatever a conversation asks for, it takes.
pub proof fn a_conversation_takes_what_it_asks_for(
    id: u64,
    events: Seq<ClientEvent>,
    event: ClientEvent,
)
    requires
        all_client_events_awaited(id, events),
        events.len() == 0 ==> event is Opened,
        events.len() > 0 ==> match client_after(id, events).1 {
            ClientAction::Greet { .. } => event is Sent,
            ClientAction::Read => event is Came,
            ClientAction::Submit { .. } => event is Answered,
            ClientAction::Answer { .. } => event is Sent,
            _ => false,
        },
    ensures
        all_client_events_awaited(id, events.push(event)),
{
    a_conversation_is_its_events(id, events);
    assert(events.push(event).drop_last() == events);
}

} // verus!
