//! What the run of a request promises: every statement of the text is run, every
//! parameter is bound, every row is read, and an error is told as SQLite tells
//! it.
use vstd::prelude::*;
use vstd::utf8::{decode_utf8, encode_utf8, is_char_boundary};

use crate::base64::decoded;
use crate::number::{decimal, decimal_int};
use crate::protocol::{Cell, Param, Response};
use crate::runner::{
    all_asked_for, column_titles, first_zero_is, fits_c, has_text_behind, is_bind_of, is_exec_answer,
    is_prepare_answer, rows_read, same_action, script_after, zero_byte_message, Compiled, Phase,
    ScriptAction, ScriptEvent, ScriptState, Status, WantedAction,
};
use crate::text::{is_space, texts};

verus! {

/// What the run does after some events.
pub open spec fn wanted_after(
    sql: Seq<char>,
    params: Seq<Param>,
    events: Seq<ScriptEvent>,
) -> WantedAction {
    if events.len() == 0 {
        ScriptState::begin(sql, params).1
    } else {
        script_after(sql, params, events.drop_last()).step(events.last()).1
    }
}

/// How many columns the statement that was compiled last has, and where the text
/// behind it begins.
pub open spec fn last_compiled(events: Seq<ScriptEvent>) -> Option<(i32, Option<usize>)>
    decreases events.len(),
{
    if events.len() == 0 {
        None
    } else {
        match events.last() {
            ScriptEvent::Compiled { columns, tail, .. } => Some((columns, tail)),
            _ => last_compiled(events.drop_last()),
        }
    }
}

/// Where the statement that was compiled last begins.
pub open spec fn statement_start(events: Seq<ScriptEvent>) -> int
    decreases events.len(),
{
    if events.len() == 0 {
        0
    } else {
        match events.last() {
            ScriptEvent::Compiled { .. } => text_left(events.drop_last()),
            _ => statement_start(events.drop_last()),
        }
    }
}

/// Where the text that is not compiled yet begins.
pub open spec fn text_left(events: Seq<ScriptEvent>) -> int {
    match last_compiled(events) {
        Some((_, Some(tail))) => tail as int,
        _ => 0,
    }
}

/// How many values were bound since the last statement was compiled.
pub open spec fn bound_since(events: Seq<ScriptEvent>) -> int
    decreases events.len(),
{
    if events.len() == 0 {
        0
    } else {
        match events.last() {
            ScriptEvent::Compiled { .. } => 0,
            ScriptEvent::Bound { .. } => bound_since(events.drop_last()) + 1,
            _ => bound_since(events.drop_last()),
        }
    }
}

/// The names of columns that were read last.
pub open spec fn names_read(events: Seq<ScriptEvent>) -> Seq<Option<String>>
    decreases events.len(),
{
    if events.len() == 0 {
        seq![]
    } else {
        match events.last() {
            ScriptEvent::Named { names } => names@,
            _ => names_read(events.drop_last()),
        }
    }
}

/// Whether nothing went wrong on the connection.
pub open spec fn went_well(event: ScriptEvent) -> bool {
    match event {
        ScriptEvent::Compiled { rc, .. } => rc == 0,
        ScriptEvent::Bound { rc } => rc == 0,
        ScriptEvent::Stepped { rc } => rc == 100 || rc == 101,
        ScriptEvent::Failed { .. } => false,
        _ => true,
    }
}

/// What an action waits for.
pub open spec fn is_awaited(want: WantedAction, event: ScriptEvent) -> bool {
    match want {
        WantedAction::Bind { .. } => event is Bound,
        WantedAction::Exactly { action } => match action {
            ScriptAction::Compile { .. } => event is Compiled,
            ScriptAction::Bind { .. } => event is Bound,
            ScriptAction::ReadNames { .. } => event is Named,
            ScriptAction::Step => event is Stepped,
            ScriptAction::ReadRow { .. } => event is Row,
            ScriptAction::ReadError => event is Failed,
            ScriptAction::Finish => false,
            ScriptAction::Unexpected => false,
        },
    }
}

spec fn is_in_phase(s: ScriptState, want: WantedAction) -> bool {
    match s.phase {
        Phase::Compiling => want == (WantedAction::Exactly {
            action: ScriptAction::Compile { offset: s.offset },
        }),
        Phase::Binding { at } => want == (WantedAction::Bind { param: s.params[at as int] }),
        Phase::Naming => want == (WantedAction::Exactly {
            action: ScriptAction::ReadNames { count: s.width },
        }),
        Phase::Stepping => want == (WantedAction::Exactly { action: ScriptAction::Step }),
        Phase::Reading => want == (WantedAction::Exactly {
            action: ScriptAction::ReadRow { count: s.width },
        }),
        Phase::Failing => want == (WantedAction::Exactly { action: ScriptAction::ReadError }),
        Phase::Over => want == (WantedAction::Exactly { action: ScriptAction::Finish }),
    }
}

proof fn a_run_is_its_events(sql: Seq<char>, params: Seq<Param>, events: Seq<ScriptEvent>)
    requires
        params.len() <= usize::MAX,
        all_asked_for(sql, params, events),
    ensures
        ({
            let s = script_after(sql, params, events);
            &&& s.wf()
            &&& s.sql == sql
            &&& s.params == params
            &&& is_in_phase(s, wanted_after(sql, params, events))
            &&& s.columns == column_titles(names_read(events))
            &&& s.rows == rows_read(events)
            &&& s.phase == Phase::Compiling ==> s.offset == text_left(events) && bound_since(events)
                <= params.len()
            &&& s.phase is Binding || s.phase == Phase::Naming || s.phase == Phase::Stepping
                || s.phase == Phase::Reading ==> {
                &&& last_compiled(events) == Some((s.width, s.tail))
                &&& s.offset == statement_start(events)
                &&& bound_since(events) == match s.phase {
                    Phase::Binding { at } => at as int,
                    _ => params.len() as int,
                }
            }
            &&& s.phase == Phase::Naming ==> s.columns.len() == 0 && s.width > 0
            &&& s.phase != Phase::Over ==> s.error is None
            &&& s.error is None && s.phase != Phase::Failing ==> forall|k: int|
                0 <= k < events.len() ==> went_well(#[trigger] events[k])
            &&& forall|k: int|
                0 <= k < events.len() ==> #[trigger] events[k] !is Failed || k == events.len() - 1
        }),
    decreases events.len(),
{
    assert(column_titles(Seq::<Option<String>>::empty()) == Seq::<Seq<char>>::empty());
    if events.len() > 0 {
        let before = events.drop_last();
        a_run_is_its_events(sql, params, before);
        let s = script_after(sql, params, before);
        let t = script_after(sql, params, events);
        assert forall|k: int| 0 <= k < events.len() && k != events.len() - 1 implies
            #[trigger] events[k] !is Failed by {
            assert(before[k] == events[k]);
            if events[k] is Failed {
                assert(k == before.len() - 1);
                assert(s.phase == Phase::Over) by {
                    a_failure_ends_it(sql, params, before);
                }
            }
        }
        if t.error is None && t.phase != Phase::Failing {
            assert forall|k: int| 0 <= k < events.len() implies went_well(#[trigger] events[k]) by {
                if k < before.len() {
                    assert(before[k] == events[k]);
                }
            }
        }
    }
}

proof fn a_failure_ends_it(sql: Seq<char>, params: Seq<Param>, events: Seq<ScriptEvent>)
    requires
        params.len() <= usize::MAX,
        all_asked_for(sql, params, events),
        events.len() > 0,
        events.last() is Failed,
    ensures
        script_after(sql, params, events).phase == Phase::Over,
{
}

/// Where a step gives anything but a row or the end, the connection is asked for
/// its error.
pub proof fn a_failed_step_is_looked_into(
    sql: Seq<char>,
    params: Seq<Param>,
    events: Seq<ScriptEvent>,
    rc: i32,
)
    requires
        params.len() <= usize::MAX,
        all_asked_for(sql, params, events),
        events.len() > 0,
        events.last() == (ScriptEvent::Stepped { rc }) && rc != 100 && rc != 101,
    ensures
        wanted_after(sql, params, events) == (WantedAction::Exactly {
            action: ScriptAction::ReadError,
        }),
{
    a_run_is_its_events(sql, params, events.drop_last());
}

/// Where a text cannot be compiled, the connection is asked for its error.
pub proof fn a_text_that_fails_is_looked_into(
    sql: Seq<char>,
    params: Seq<Param>,
    events: Seq<ScriptEvent>,
)
    requires
        params.len() <= usize::MAX,
        all_asked_for(sql, params, events),
        events.len() > 0,
        events.last() matches ScriptEvent::Compiled { rc, .. } && rc != 0,
    ensures
        wanted_after(sql, params, events) == (WantedAction::Exactly {
            action: ScriptAction::ReadError,
        }),
{
}

/// What the connection says of its error is the answer: not ok, with that code,
/// or 1 where it has none, and that message, and no rows.
pub proof fn an_error_is_answered_as_it_is(
    sql: Seq<char>,
    params: Seq<Param>,
    events: Seq<ScriptEvent>,
    code: i32,
    message: Option<String>,
    status: Status,
    r: Response,
)
    requires
        params.len() <= usize::MAX,
        all_asked_for(sql, params, events),
        events.len() > 0,
        events.last() == (ScriptEvent::Failed { code, message }),
        is_exec_answer(script_after(sql, params, events), status, r),
    ensures
        wanted_after(sql, params, events) == (WantedAction::Exactly {
            action: ScriptAction::Finish,
        }),
        !r.ok,
        r.code == if code == 0 {
            1
        } else {
            code as int
        },
        message matches Some(m) ==> r.message@ == m@,
        message is None ==> r.message@ == "sqlite error"@,
        r.rows@.len() == 0,
        r.columns@.len() == 0,
        r.autocommit == status.autocommit,
{
}

/// An answer that says ok is one of a run in which everything went well: each
/// text was compiled, each value was bound, each step gave a row or the end.
pub proof fn ok_means_that_all_went_well(
    sql: Seq<char>,
    params: Seq<Param>,
    events: Seq<ScriptEvent>,
    status: Status,
    r: Response,
)
    requires
        params.len() <= usize::MAX,
        all_asked_for(sql, params, events),
        wanted_after(sql, params, events) == (WantedAction::Exactly {
            action: ScriptAction::Finish,
        }),
        is_exec_answer(script_after(sql, params, events), status, r),
        r.ok,
    ensures
        forall|k: int| 0 <= k < events.len() ==> went_well(#[trigger] events[k]),
        r.code == 0,
        r.rows@ == rows_read(events),
        r.columns@.len() == names_read(events).len(),
        forall|i: int|
            0 <= i < r.columns@.len() ==> #[trigger] r.columns@[i]@ == match names_read(events)[i] {
                Some(name) => name@,
                None => "col"@ + decimal(i as nat),
            },
        r.changes == status.changes,
        r.last_insert_rowid == status.last_insert_rowid,
        r.autocommit == status.autocommit,
        r.total_changes == status.total_changes,
{
    a_run_is_its_events(sql, params, events);
    assert(texts(r.columns@).len() == r.columns@.len());
    assert forall|i: int| 0 <= i < r.columns@.len() implies #[trigger] r.columns@[i]@
        == match names_read(events)[i] {
        Some(name) => name@,
        None => "col"@ + decimal(i as nat),
    } by {
        assert(texts(r.columns@)[i] == r.columns@[i]@);
    }
}

/// A request whose text has a zero byte is refused before anything is compiled;
/// any other begins with the first statement.
pub proof fn a_run_begins_at_the_start(
    sql: Seq<char>,
    params: Seq<Param>,
    status: Status,
    r: Response,
)
    requires
        is_exec_answer(script_after(sql, params, seq![]), status, r),
    ensures
        fits_c(sql) ==> wanted_after(sql, params, seq![]) == (WantedAction::Exactly {
            action: ScriptAction::Compile { offset: 0 },
        }),
        !fits_c(sql) ==> {
            &&& wanted_after(sql, params, seq![]) == (WantedAction::Exactly {
                action: ScriptAction::Finish,
            })
            &&& !r.ok
            &&& r.code == 1
            &&& r.message@ == zero_byte_message(encode_utf8(sql))
        },
{
}

/// Where a statement is done, the next one is compiled from where it ended, and
/// the run ends where there is no more text. With parameters there may be no
/// second statement.
pub proof fn every_statement_is_run(
    sql: Seq<char>,
    params: Seq<Param>,
    events: Seq<ScriptEvent>,
    status: Status,
    r: Response,
)
    requires
        params.len() <= usize::MAX,
        all_asked_for(sql, params, events),
        events.len() > 0,
        events.last() == (ScriptEvent::Stepped { rc: 101 }),
        is_exec_answer(script_after(sql, params, events), status, r),
    ensures
        last_compiled(events) is Some,
        ({
            let want = wanted_after(sql, params, events);
            match (last_compiled(events)->0).1 {
                Some(tail) if tail < encode_utf8(sql).len() => {
                    if params.len() > 0 {
                        &&& want == (WantedAction::Exactly { action: ScriptAction::Finish })
                        &&& r.ok <==> !has_text_behind(sql, tail as int)
                        &&& !r.ok ==> r.code == 1 && r.message@
                            == "bound parameters require a single statement"@
                    } else if tail > statement_start(events) {
                        want == (WantedAction::Exactly {
                            action: ScriptAction::Compile { offset: tail },
                        })
                    } else {
                        want == (WantedAction::Exactly { action: ScriptAction::Finish }) && r.ok
                    }
                },
                _ => want == (WantedAction::Exactly { action: ScriptAction::Finish }) && r.ok,
            }
        }),
{
    a_run_is_its_events(sql, params, events.drop_last());
}

/// Parameters are bound one after the other, each once for a statement, and the
/// statement is stepped, or its columns are named, only when all are bound.
pub proof fn every_parameter_is_bound(sql: Seq<char>, params: Seq<Param>, events: Seq<ScriptEvent>)
    requires
        params.len() <= usize::MAX,
        all_asked_for(sql, params, events),
    ensures
        match wanted_after(sql, params, events) {
            WantedAction::Bind { param } => bound_since(events) < params.len() && param
                == params[bound_since(events)],
            WantedAction::Exactly { action } => match action {
                ScriptAction::Step => bound_since(events) == params.len(),
                ScriptAction::ReadNames { count } => {
                    &&& bound_since(events) == params.len()
                    &&& last_compiled(events) matches Some((columns, _)) && columns == count
                    &&& count > 0
                    &&& names_read(events).len() == 0
                },
                ScriptAction::ReadRow { count } => last_compiled(events) matches Some((columns, _))
                    && columns == count,
                _ => true,
            },
        },
{
    a_run_is_its_events(sql, params, events);
}

/// A row that there is is read, and after it the statement is stepped again; so
/// it is once its columns are named.
pub proof fn rows_are_read_until_the_end(
    sql: Seq<char>,
    params: Seq<Param>,
    events: Seq<ScriptEvent>,
)
    requires
        params.len() <= usize::MAX,
        all_asked_for(sql, params, events),
        events.len() > 0,
    ensures
        events.last() == (ScriptEvent::Stepped { rc: 100 }) ==> (wanted_after(sql, params, events)
            matches WantedAction::Exactly { action } && action is ReadRow),
        events.last() is Row || events.last() is Named ==> wanted_after(sql, params, events) == (
        WantedAction::Exactly { action: ScriptAction::Step }),
{
}

/// A statement that was compiled is bound, named or stepped, unless a parameter
/// cannot be bound; where there was nothing to compile the run ends well.
pub proof fn a_compiled_statement_is_run(
    sql: Seq<char>,
    params: Seq<Param>,
    events: Seq<ScriptEvent>,
    status: Status,
    r: Response,
)
    requires
        params.len() <= usize::MAX,
        all_asked_for(sql, params, events),
        events.len() > 0,
        is_exec_answer(script_after(sql, params, events), status, r),
    ensures
        events.last() matches ScriptEvent::Compiled { rc, statement, .. } && rc == 0 && !statement
            ==> r.ok && wanted_after(sql, params, events) == (WantedAction::Exactly {
            action: ScriptAction::Finish,
        }),
        (events.last() matches ScriptEvent::Compiled { rc, statement, .. } && rc == 0 && statement)
            || (events.last() matches ScriptEvent::Bound { rc } && rc == 0) ==> {
            let want = wanted_after(sql, params, events);
            if bound_since(events) < params.len() {
                if can_be_bound(params[bound_since(events)].value) {
                    want is Bind
                } else {
                    want == (WantedAction::Exactly { action: ScriptAction::Finish }) && !r.ok
                        && r.code == 1 && (params[bound_since(events)].value is Blob ==> r.message@
                        == "blob parameter is not base64"@)
                }
            } else if names_read(events).len() == 0 && (last_compiled(events)->0).0 > 0 {
                want matches WantedAction::Exactly { action } && action is ReadNames
            } else {
                want == (WantedAction::Exactly { action: ScriptAction::Step })
            }
        },
        events.last() matches ScriptEvent::Bound { rc } ==> rc != 0 ==> {
            &&& !r.ok
            &&& r.code == 1
            &&& r.message@ == "bind "@ + decimal_int(
                params[bound_since(events) - 1].index as int,
            ) + " failed ("@ + decimal_int(rc as int) + ")"@
            &&& wanted_after(sql, params, events) == (WantedAction::Exactly {
                action: ScriptAction::Finish,
            })
        },
{
    a_run_is_its_events(sql, params, events.drop_last());
    a_run_is_its_events(sql, params, events);
}

/// Whether a value can be bound: text without a zero byte, a blob that is one.
pub open spec fn can_be_bound(value: Cell) -> bool {
    match value {
        Cell::Text { v } => fits_c(v@),
        Cell::Blob { v } => decoded(encode_utf8(v@)) is Some,
        _ => true,
    }
}

/// Whatever a run asks for, it takes.
pub proof fn a_run_takes_what_it_asks_for(
    sql: Seq<char>,
    params: Seq<Param>,
    events: Seq<ScriptEvent>,
    event: ScriptEvent,
)
    requires
        params.len() <= usize::MAX,
        all_asked_for(sql, params, events),
        is_awaited(wanted_after(sql, params, events), event),
    ensures
        all_asked_for(sql, params, events.push(event)),
{
    a_run_is_its_events(sql, params, events);
    assert(events.push(event).drop_last() == events);
}

/// The action that is carried out is the one that the run wants: a parameter is
/// bound to its own index, and with the value that was sent.
pub proof fn an_action_is_the_wanted_one(action: ScriptAction, want: WantedAction)
    requires
        same_action(action, want),
    ensures
        match want {
            WantedAction::Bind { param } => action matches ScriptAction::Bind { index, value }
                && index == param.index && is_bind_of(param.value, Ok(value)),
            WantedAction::Exactly { action: wanted } => action == wanted,
        },
{
}

/// A statement that was compiled is described as SQLite describes it: its
/// columns, their declared types, its parameters, and where the text behind it
/// begins. A text without a statement is empty, and an error is told as it is.
pub proof fn a_compiled_statement_is_described(c: Compiled, status: Status, r: Response)
    requires
        is_prepare_answer(c, status, r),
    ensures
        r.rows@.len() == 0,
        r.autocommit == status.autocommit,
        match c {
            Compiled::Failed { code, message } => {
                &&& !r.ok
                &&& r.code == if code == 0 {
                    1
                } else {
                    code as int
                }
                &&& message matches Some(m) ==> r.message@ == m@
                &&& message is None ==> r.message@ == "sqlite error"@
            },
            Compiled::Nothing { tail } => r.ok && r.code == 0 && r.empty && r.tail == tail,
            Compiled::Statement { tail, columns, decltypes, param_names } => {
                &&& r.ok
                &&& r.code == 0
                &&& !r.empty
                &&& r.tail == tail
                &&& r.param_count == param_names@.len() as i32
                &&& r.columns@.len() == columns@.len()
                &&& forall|i: int|
                    0 <= i < columns@.len() ==> #[trigger] r.columns@[i]@ == match columns@[i] {
                        Some(name) => name@,
                        None => "col"@ + decimal(i as nat),
                    }
                &&& r.decltypes@.len() == decltypes@.len()
                &&& forall|i: int|
                    0 <= i < decltypes@.len() ==> #[trigger] r.decltypes@[i]@ == match decltypes@[i] {
                        Some(name) => name@,
                        None => Seq::<char>::empty(),
                    }
                &&& r.param_names@.len() == param_names@.len()
                &&& forall|i: int|
                    0 <= i < param_names@.len() ==> #[trigger] r.param_names@[i]@
                        == match param_names@[i] {
                        Some(name) => name@,
                        None => Seq::<char>::empty(),
                    }
            },
        },
{
    if let Compiled::Statement { tail, columns, decltypes, param_names } = c {
        assert(texts(r.columns@).len() == r.columns@.len());
        assert(texts(r.decltypes@).len() == r.decltypes@.len());
        assert(texts(r.param_names@).len() == r.param_names@.len());
        assert forall|i: int| 0 <= i < columns@.len() implies #[trigger] r.columns@[i]@
            == match columns@[i] {
            Some(name) => name@,
            None => "col"@ + decimal(i as nat),
        } by {
            assert(texts(r.columns@)[i] == r.columns@[i]@);
        }
        assert forall|i: int| 0 <= i < decltypes@.len() implies #[trigger] r.decltypes@[i]@
            == match decltypes@[i] {
            Some(name) => name@,
            None => Seq::<char>::empty(),
        } by {
            assert(texts(r.decltypes@)[i] == r.decltypes@[i]@);
        }
        assert forall|i: int| 0 <= i < param_names@.len() implies #[trigger] r.param_names@[i]@
            == match param_names@[i] {
            Some(name) => name@,
            None => Seq::<char>::empty(),
        } by {
            assert(texts(r.param_names@)[i] == r.param_names@[i]@);
        }
    }
}

/// A text can be handed over if none of its bytes is zero; otherwise the first
/// that is, is named.
pub proof fn a_text_fits_without_zero_bytes(text: Seq<char>, i: int)
    ensures
        fits_c(text) <==> !encode_utf8(text).contains(0),
        0 <= i < encode_utf8(text).len() && encode_utf8(text)[i] == 0 && (forall|j: int|
            0 <= j < i ==> #[trigger] encode_utf8(text)[j] != 0) ==> zero_byte_message(
            encode_utf8(text),
        ) == "nul byte found in provided data at position: "@ + decimal(i as nat),
{
    let bytes = encode_utf8(text);
    if !bytes.contains(0) {
        assert forall|j: int| 0 <= j < bytes.len() implies #[trigger] bytes[j] != 0 by {
            assert(bytes.contains(bytes[j]));
        }
        first_zero_is(bytes, bytes.len() as int);
    } else {
        let k = first_of(bytes);
        first_zero_is(bytes, k);
    }
    if 0 <= i < bytes.len() && bytes[i] == 0 && (forall|j: int|
        0 <= j < i ==> #[trigger] bytes[j] != 0) {
        first_zero_is(bytes, i);
    }
}

proof fn first_of(bytes: Seq<u8>) -> (k: int)
    requires
        bytes.contains(0),
    ensures
        0 <= k < bytes.len(),
        bytes[k] == 0,
        forall|j: int| 0 <= j < k ==> #[trigger] bytes[j] != 0,
    decreases bytes.len(),
{
    let j = choose|j: int| 0 <= j < bytes.len() && bytes[j] == 0;
    if bytes.take(j).contains(0) {
        let k = first_of(bytes.take(j));
        assert forall|i: int| 0 <= i < k implies #[trigger] bytes[i] != 0 by {
            assert(bytes.take(j)[i] == bytes[i]);
        }
        k
    } else {
        assert forall|i: int| 0 <= i < j implies #[trigger] bytes[i] != 0 by {
            assert(bytes.take(j)[i] == bytes[i]);
            assert(bytes.take(j).contains(bytes[i]));
        }
        j
    }
}

/// There is more to run behind a statement if anything but whitespace stands
/// there.
pub proof fn there_is_more_behind_a_statement(sql: Seq<char>, tail: int)
    requires
        is_char_boundary(encode_utf8(sql), tail),
    ensures
        ({
            let rest = decode_utf8(encode_utf8(sql).skip(tail));
            has_text_behind(sql, tail) <==> exists|i: int|
                0 <= i < rest.len() && !is_space(#[trigger] rest[i])
        }),
{
}

} // verus!
