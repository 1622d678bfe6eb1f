//! What a load process promises: it counts each operation as what it was, writes
//! only to its own rows, and its account is that of the scripts it ran.
use vstd::prelude::*;

use crate::hammer::{
    delete_sql, every_operation_is_counted_once, insert_sql, load_after, read_sql, row_name,
    update_sql, LoadPhase, LoadState, SETUP,
};
use crate::load::{DbEvent, Deed};
use crate::migrating::boot_after;
use crate::number::decimal;
use crate::rng::xorshift;

verus! {

/// What a load process does after some events.
pub open spec fn load_deed(worker: u64, ops: u32, seed: u64, events: Seq<DbEvent>) -> Deed {
    if events.len() == 0 {
        Deed::Open
    } else {
        load_after(worker, ops, seed, events.drop_last()).step(events.last()).1
    }
}

/// Whether every event is one that the process waited for.
pub open spec fn all_load_events_awaited(
    worker: u64,
    ops: u32,
    seed: u64,
    events: Seq<DbEvent>,
) -> bool
    decreases events.len(),
{
    events.len() > 0 ==> {
        &&& all_load_events_awaited(worker, ops, seed, events.drop_last())
        &&& load_deed(worker, ops, seed, events) != Deed::Unexpected
    }
}

/// What went wrong, if anything did.
pub open spec fn failure(event: DbEvent) -> Option<Seq<char>> {
    match event {
        DbEvent::Opened { error: Some(e) } => Some(e@),
        DbEvent::Executed { error: Some(e) } => Some(e@),
        DbEvent::Queried { result: Err(e) } => Some(e@),
        _ => None,
    }
}

/// Whether the names are those of rows of the process, the ones inserted with
/// the operations at these positions.
pub open spec fn are_own_rows(worker: u64, names: Seq<Seq<char>>, at: Seq<u32>) -> bool {
    &&& at.len() == names.len()
    &&& forall|i: int| 0 <= i < at.len() ==> names[i] == row_name(worker, #[trigger] at[i])
    &&& forall|i: int, j: int| 0 <= i < j < at.len() ==> #[trigger] at[i] < #[trigger] at[j]
}

/// Whether the deed is one of the four queries.
pub open spec fn is_one_of_four(worker: u64, d: Deed) -> bool {
    exists|which: u64| which < 4 && d == (Deed::Query { sql: #[trigger] read_sql(worker, which) })
}

proof fn a_query_is_one_of_four(worker: u64, which: u64, d: Deed)
    requires
        which < 4,
        d == (Deed::Query { sql: read_sql(worker, which) }),
    ensures
        is_one_of_four(worker, d),
{
}

/// Whether the deed is that of the phase.
spec fn is_deed_of(s: LoadState, d: Deed) -> bool {
    match s.phase {
        LoadPhase::Opening => d == Deed::Open,
        LoadPhase::SettingUp => d == (Deed::Exec { sql: SETUP@ }),
        LoadPhase::Booting => true,
        LoadPhase::Reopening => d == Deed::Open && s.step > 0 && s.step % 200 == 0,
        LoadPhase::SettingUpAgain => d == (Deed::Exec { sql: SETUP@ }),
        LoadPhase::Inserting => d == (Deed::Exec { sql: insert_sql(s.worker, s.step, s.recorded) })
            && s.recorded == row_name(s.worker, s.step) && s.live.len() > 0 && s.live.last()
            == s.recorded,
        LoadPhase::Updating => d == (Deed::Exec { sql: update_sql(s.worker, s.step, s.recorded) })
            && s.live.contains(s.recorded),
        LoadPhase::Deleting => d == (Deed::Exec { sql: delete_sql(s.worker, s.step, s.recorded) }),
        LoadPhase::Reading => is_one_of_four(s.worker, d),
        LoadPhase::Through => d is Done || d is Failed,
        LoadPhase::Over => d is Failed,
    }
}

/// The rows that are there: those inserted and not deleted, with the one that is
/// being inserted left out and the one that is being deleted put in.
spec fn rows_now(s: LoadState) -> int {
    s.live.len() - if s.phase == LoadPhase::Inserting {
        1int
    } else if s.phase == LoadPhase::Deleting {
        -1int
    } else {
        0int
    }
}

spec fn is_sound(s: LoadState, d: Deed) -> bool {
    &&& is_deed_of(s, d)
    &&& s.phase != LoadPhase::Over ==> rows_now(s) == s.inserts - s.deletes
    &&& s.writes() == 0 <==> s.sample.len() == 0
    &&& s.phase == LoadPhase::Opening || s.phase == LoadPhase::SettingUp || s.phase
        == LoadPhase::Booting ==> s.step == 0 && s.live.len() == 0
}

/// Whether the live rows are the process's own, by the operations that inserted
/// them, and a row that is being deleted is one of them no more.
pub open spec fn owns(s: LoadState, at: Seq<u32>) -> bool {
    &&& are_own_rows(s.worker, s.live, at)
    &&& forall|i: int|
        0 <= i < at.len() ==> #[trigger] at[i] < s.step || (at[i] == s.step && (s.phase
            == LoadPhase::Inserting || s.phase == LoadPhase::Over))
    &&& s.phase == LoadPhase::Deleting ==> exists|k: u32|
        s.recorded == #[trigger] row_name(s.worker, k) && k < s.step && (at.len() > 0 ==> at.last()
            < k)
}

proof fn row_names_are_not_empty(worker: u64, step: u32)
    ensures
        row_name(worker, step).len() > 0,
{
    reveal_strlit("w");
}

proof fn a_drawn_operation_is_sound(s: LoadState, at: Seq<u32>) -> (next: Seq<u32>)
    requires
        s.live.len() == s.inserts - s.deletes,
        s.writes() == 0 <==> s.sample.len() == 0,
        are_own_rows(s.worker, s.live, at),
        forall|i: int| 0 <= i < at.len() ==> #[trigger] at[i] < s.step,
    ensures
        is_sound(s.draw().0, s.draw().1),
        s.draw().0.is_operating(),
        owns(s.draw().0, next),
{
    let (t, d) = s.draw();
    if t.phase == LoadPhase::Reading {
        let which = xorshift(xorshift(s.rng)) % 4;
        assert(d == (Deed::Query { sql: read_sql(s.worker, which) }));
        a_query_is_one_of_four(s.worker, which, d);
        at
    } else if t.phase == LoadPhase::Updating {
        let r3 = xorshift(xorshift(xorshift(s.rng)));
        let n = s.live.len() as int;
        let i = (r3 as int) % n;
        assert(0 <= i < n) by (nonlinear_arith)
            requires
                i == (r3 as int) % n,
                n > 0,
        ;
        assert(s.live[i] == t.recorded);
        assert(t.live.contains(t.recorded));
        assert(is_deed_of(t, d));
        at
    } else if t.phase == LoadPhase::Deleting {
        assert(s.live.last() == row_name(s.worker, at[at.len() - 1]));
        assert(is_deed_of(t, d));
        at.drop_last()
    } else {
        assert(t.phase == LoadPhase::Inserting);
        assert(is_deed_of(t, d));
        at.push(s.step)
    }
}

proof fn going_on_is_sound(s: LoadState, at: Seq<u32>) -> (next: Seq<u32>)
    requires
        s.live.len() == s.inserts - s.deletes,
        s.writes() == 0 <==> s.sample.len() == 0,
        are_own_rows(s.worker, s.live, at),
        forall|i: int| 0 <= i < at.len() ==> #[trigger] at[i] < s.step,
    ensures
        is_sound(s.go_on().0, s.go_on().1),
        owns(s.go_on().0, next),
{
    if s.step < s.ops && !(s.step > 0 && s.step % 200 == 0) {
        a_drawn_operation_is_sound(s, at)
    } else {
        at
    }
}

proof fn a_load_is_sound(worker: u64, ops: u32, seed: u64, events: Seq<DbEvent>) -> (at: Seq<u32>)
    requires
        all_load_events_awaited(worker, ops, seed, events),
    ensures
        is_sound(load_after(worker, ops, seed, events), load_deed(worker, ops, seed, events)),
        owns(load_after(worker, ops, seed, events), at),
    decreases events.len(),
{
    every_operation_is_counted_once(worker, ops, seed, events);
    if events.len() == 0 {
        Seq::<u32>::empty()
    } else {
        let before = events.drop_last();
        let at = a_load_is_sound(worker, ops, seed, before);
        every_operation_is_counted_once(worker, ops, seed, before);
        let s = load_after(worker, ops, seed, before);
        let event = events.last();
        row_names_are_not_empty(worker, s.step);
        if failure(event) is Some && s.phase != LoadPhase::Booting {
            at
        } else {
            match s.phase {
                LoadPhase::Booting => {
                    let u = LoadState { boot: s.boot.step(event).0, ..s };
                    if s.boot.step(event).1 is Done {
                        going_on_is_sound(u, at)
                    } else {
                        at
                    }
                },
                LoadPhase::SettingUpAgain => a_drawn_operation_is_sound(s, at),
                LoadPhase::Inserting => going_on_is_sound(
                    LoadState { inserts: (s.inserts + 1) as u32, ..s.wrote() },
                    at,
                ),
                LoadPhase::Updating => {
                    let i = choose|i: int| 0 <= i < s.live.len() && s.live[i] == s.recorded;
                    assert(s.live[i] == row_name(worker, at[i]));
                    row_names_are_not_empty(worker, at[i]);
                    going_on_is_sound(
                        LoadState { updates: (s.updates + 1) as u32, ..s.wrote() },
                        at,
                    )
                },
                LoadPhase::Deleting => {
                    let k = choose|k: u32|
                        s.recorded == #[trigger] row_name(s.worker, k) && k < s.step && (at.len()
                            > 0 ==> at.last() < k);
                    row_names_are_not_empty(worker, k);
                    going_on_is_sound(
                        LoadState { deletes: (s.deletes + 1) as u32, ..s.wrote() },
                        at,
                    )
                },
                LoadPhase::Reading => going_on_is_sound(
                    LoadState { reads: (s.reads + 1) as u32, step: (s.step + 1) as u32, ..s },
                    at,
                ),
                _ => at,
            }
        }
    }
}

/// A load process writes to its own rows only. It inserts a row under the name of
/// the operation, changes one that it inserted and did not delete, or deletes one
/// and counts it as gone; any other operation is one of the four queries. There
/// are as many rows of it as it inserted and did not delete.
pub proof fn a_process_writes_to_its_own_rows(
    worker: u64,
    ops: u32,
    seed: u64,
    events: Seq<DbEvent>,
) -> (at: Seq<u32>)
    requires
        all_load_events_awaited(worker, ops, seed, events),
        load_after(worker, ops, seed, events).is_operating(),
    ensures
        ({
            let s = load_after(worker, ops, seed, events);
            let d = load_deed(worker, ops, seed, events);
            &&& are_own_rows(worker, s.live, at)
            &&& {
                ||| {
                    &&& d == (Deed::Exec {
                        sql: insert_sql(worker, s.step, row_name(worker, s.step)),
                    })
                    &&& s.live.len() == s.inserts - s.deletes + 1
                    &&& s.live.last() == row_name(worker, s.step)
                }
                ||| {
                    &&& s.live.len() == s.inserts - s.deletes
                    &&& exists|name: Seq<char>|
                        s.live.contains(name) && d == (Deed::Exec {
                            sql: #[trigger] update_sql(worker, s.step, name),
                        })
                }
                ||| {
                    &&& s.live.len() == s.inserts - s.deletes - 1
                    &&& exists|k: u32|
                        k < s.step && (at.len() > 0 ==> at.last() < k) && d == (Deed::Exec {
                            sql: delete_sql(worker, s.step, #[trigger] row_name(worker, k)),
                        })
                }
                ||| {
                    &&& s.live.len() == s.inserts - s.deletes
                    &&& is_one_of_four(worker, d)
                }
            }
        }),
{
    let at = a_load_is_sound(worker, ops, seed, events);
    every_operation_is_counted_once(worker, ops, seed, events);
    let s = load_after(worker, ops, seed, events);
    let d = load_deed(worker, ops, seed, events);
    if s.phase == LoadPhase::Updating {
        assert(d == (Deed::Exec { sql: update_sql(worker, s.step, s.recorded) }));
    }
    at
}

/// Whether the counts are those before, with one operation of a kind more.
pub open spec fn counts_one_more(
    s: LoadState,
    t: LoadState,
    reads: int,
    inserts: int,
    updates: int,
    deletes: int,
) -> bool {
    &&& t.reads == s.reads + reads
    &&& t.inserts == s.inserts + inserts
    &&& t.updates == s.updates + updates
    &&& t.deletes == s.deletes + deletes
    &&& t.step == s.step + 1
    &&& if reads == 1 {
        t.sum_seq == s.sum_seq && t.sample == s.sample && t.last == s.last
    } else {
        &&& t.sum_seq == s.sum_seq + s.step
        &&& t.sample == if s.inserts + s.updates + s.deletes == 0 {
            t.last
        } else {
            s.sample
        }
    }
}

/// Each operation that went well is counted as what it was: the script or query
/// that was run says which, the number of the operation is added to the sum of
/// the writes, the row of the first write is kept and that of the last is noted.
pub proof fn an_operation_is_counted_as_what_it_was(
    worker: u64,
    ops: u32,
    seed: u64,
    events: Seq<DbEvent>,
)
    requires
        all_load_events_awaited(worker, ops, seed, events),
        events.len() > 0,
        load_after(worker, ops, seed, events.drop_last()).is_operating(),
        failure(events.last()) is None,
    ensures
        ({
            let s = load_after(worker, ops, seed, events.drop_last());
            let t = load_after(worker, ops, seed, events);
            let d = load_deed(worker, ops, seed, events.drop_last());
            ||| d is Query && counts_one_more(s, t, 1, 0, 0, 0)
            ||| d == (Deed::Exec { sql: insert_sql(worker, s.step, t.last) }) && counts_one_more(
                s,
                t,
                0,
                1,
                0,
                0,
            )
            ||| d == (Deed::Exec { sql: update_sql(worker, s.step, t.last) }) && counts_one_more(
                s,
                t,
                0,
                0,
                1,
                0,
            )
            ||| d == (Deed::Exec { sql: delete_sql(worker, s.step, t.last) }) && counts_one_more(
                s,
                t,
                0,
                0,
                0,
                1,
            )
        }),
{
    let before = events.drop_last();
    a_load_is_sound(worker, ops, seed, before);
    every_operation_is_counted_once(worker, ops, seed, before);
    let s = load_after(worker, ops, seed, before);
    assert(s.sum_seq + s.step <= u64::MAX) by (nonlinear_arith)
        requires
            s.sum_seq <= s.step * 0xffff_ffff,
            s.step <= 0xffff_ffff,
    ;
}

/// After an operation the next one follows, until all were done. Every two
/// hundred operations the connection is opened and set up anew first. A process
/// that did all and wrote nothing has failed.
pub proof fn a_process_goes_on_until_all_is_done(
    worker: u64,
    ops: u32,
    seed: u64,
    events: Seq<DbEvent>,
)
    requires
        all_load_events_awaited(worker, ops, seed, events),
        events.len() > 0,
        load_after(worker, ops, seed, events.drop_last()).is_operating(),
        failure(events.last()) is None,
    ensures
        ({
            let t = load_after(worker, ops, seed, events);
            let d = load_deed(worker, ops, seed, events);
            let opened = DbEvent::Opened { error: None };
            let executed = DbEvent::Executed { error: None };
            if t.step == ops {
                d == if t.inserts + t.updates + t.deletes == 0 {
                    Deed::Failed {
                        error: "worker "@ + decimal(worker as nat) + " performed no writes"@,
                    }
                } else {
                    Deed::Done
                }
            } else if t.step % 200 == 0 {
                &&& d == Deed::Open
                &&& load_deed(worker, ops, seed, events.push(opened)) == (Deed::Exec {
                    sql: "PRAGMA foreign_keys = ON"@,
                })
                &&& load_after(
                    worker,
                    ops,
                    seed,
                    events.push(opened).push(executed),
                ).is_operating()
            } else {
                t.is_operating()
            }
        }),
{
    let before = events.drop_last();
    every_operation_is_counted_once(worker, ops, seed, before);
    every_operation_is_counted_once(worker, ops, seed, events);
    let opened = DbEvent::Opened { error: None };
    let executed = DbEvent::Executed { error: None };
    let t = load_after(worker, ops, seed, events);
    let one = events.push(opened);
    let two = one.push(executed);
    assert(one.drop_last() == events);
    assert(two.drop_last() == one);
    assert(load_after(worker, ops, seed, one) == t.step(opened).0);
    assert(load_after(worker, ops, seed, two) == t.step(opened).0.step(executed).0);
    if t.step < ops && t.step % 200 == 0 {
        assert(t.phase == LoadPhase::Reopening);
        assert(t.step(opened).0.step(executed).0 == t.step(opened).0.draw().0);
    }
}

/// A process opens its connection, sets it up, and brings the schema up to date;
/// once that is done it begins with its operations, and where that fails it
/// fails.
pub proof fn a_process_begins_with_the_schema(
    worker: u64,
    ops: u32,
    seed: u64,
    events: Seq<DbEvent>,
)
    requires
        all_load_events_awaited(worker, ops, seed, events),
        ops > 0,
        events.len() > 0,
        forall|k: int| 0 <= k < 2 && k < events.len() ==> failure(#[trigger] events[k]) is None,
        forall|k: int|
            2 <= k < events.len() ==> !((#[trigger] boot_after(events.subrange(2, k))).1 is Done)
                && !(boot_after(events.subrange(2, k)).1 is Failed),
    ensures
        ({
            let d = load_deed(worker, ops, seed, events);
            let t = load_after(worker, ops, seed, events);
            if events.len() == 1 {
                d == (Deed::Exec { sql: "PRAGMA foreign_keys = ON"@ })
            } else {
                match boot_after(events.skip(2)).1 {
                    Deed::Done => t.is_operating() && t.step == 0 && t.boot == boot_after(
                        events.skip(2),
                    ).0,
                    boot_deed => d == boot_deed,
                }
            }
        }),
{
    begins_with_the_schema(worker, ops, seed, events);
    every_operation_is_counted_once(worker, ops, seed, events);
}

proof fn begins_with_the_schema(worker: u64, ops: u32, seed: u64, events: Seq<DbEvent>)
    requires
        all_load_events_awaited(worker, ops, seed, events),
        ops > 0,
        forall|k: int| 0 <= k < 2 && k < events.len() ==> failure(#[trigger] events[k]) is None,
        forall|k: int|
            2 <= k < events.len() ==> !((#[trigger] boot_after(events.subrange(2, k))).1 is Done)
                && !(boot_after(events.subrange(2, k)).1 is Failed),
    ensures
        ({
            let d = load_deed(worker, ops, seed, events);
            let t = load_after(worker, ops, seed, events);
            &&& t.step == 0
            &&& t.ops == ops
            &&& events.len() == 0 ==> t.phase == LoadPhase::Opening
            &&& events.len() == 1 ==> t.phase == LoadPhase::SettingUp && d == (Deed::Exec {
                sql: SETUP@,
            })
            &&& events.len() >= 2 ==> {
                &&& t.boot == boot_after(events.skip(2)).0
                &&& match boot_after(events.skip(2)).1 {
                    Deed::Done => t.is_operating(),
                    boot_deed => d == boot_deed && (boot_deed is Failed || t.phase
                        == LoadPhase::Booting),
                }
            }
        }),
    decreases events.len(),
{
    if events.len() > 0 {
        let before = events.drop_last();
        assert forall|k: int| 0 <= k < 2 && k < before.len() implies failure(
            #[trigger] before[k],
        ) is None by {
            assert(before[k] == events[k]);
        }
        assert forall|k: int| 2 <= k < before.len() implies !((#[trigger] boot_after(
            before.subrange(2, k),
        )).1 is Done) && !(boot_after(before.subrange(2, k)).1 is Failed) by {
            assert(before.subrange(2, k) == events.subrange(2, k));
        }
        begins_with_the_schema(worker, ops, seed, before);
        assert(failure(events[0]) is None);
        if events.len() == 2 {
            assert(failure(events[1]) is None);
            assert(events.skip(2) == Seq::<DbEvent>::empty());
        }
        if events.len() > 2 {
            let n = before.len() as int;
            assert(events.subrange(2, n) == before.skip(2));
            assert(!(boot_after(events.subrange(2, n)).1 is Done));
            assert(events.skip(2).drop_last() == before.skip(2));
            assert(events.skip(2).last() == events.last());
        }
    }
}

/// Where an operation, the opening or the setting up fails, the process fails
/// with what failed.
pub proof fn a_failed_operation_ends_the_process(
    worker: u64,
    ops: u32,
    seed: u64,
    events: Seq<DbEvent>,
)
    requires
        all_load_events_awaited(worker, ops, seed, events),
        events.len() > 0,
        failure(events.last()) is Some,
        load_after(worker, ops, seed, events.drop_last()).phase != LoadPhase::Booting,
    ensures
        load_deed(worker, ops, seed, events) == (Deed::Failed { error: failure(events.last())->0 }),
        load_after(worker, ops, seed, events).phase == LoadPhase::Over,
{
}

/// Whatever a process asks for, it takes.
pub proof fn a_process_takes_what_it_asks_for(
    worker: u64,
    ops: u32,
    seed: u64,
    events: Seq<DbEvent>,
    event: DbEvent,
)
    requires
        all_load_events_awaited(worker, ops, seed, events),
        load_after(worker, ops, seed, events).phase != LoadPhase::Booting,
        match load_deed(worker, ops, seed, events) {
            Deed::Open => event is Opened,
            Deed::Exec { .. } => event is Executed,
            Deed::Query { .. } => event is Queried,
            _ => false,
        },
    ensures
        all_load_events_awaited(worker, ops, seed, events.push(event)),
{
    a_load_is_sound(worker, ops, seed, events);
    assert(events.push(event).drop_last() == events);
}

/// What a process claims is its account.
pub proof fn the_claim_is_the_account(s: LoadState)
    requires
        s.wf(),
    ensures
        s.claim().worker == s.worker,
        s.claim().ops == s.ops,
        s.claim().reads == s.reads,
        s.claim().writes == s.inserts + s.updates + s.deletes,
        s.claim().inserts == s.inserts,
        s.claim().updates == s.updates,
        s.claim().deletes == s.deletes,
        s.claim().sum_seq == s.sum_seq,
        s.claim().sample == s.sample,
        s.claim().last == s.last,
{
}

/// The random numbers decide what is done: an even number is a write, an odd one
/// a query; the next number says which. Where there is no row yet, one is
/// inserted.
pub proof fn the_numbers_decide(s: LoadState)
    ensures
        ({
            let a = xorshift(s.rng);
            let b = xorshift(a);
            let (t, d) = s.draw();
            if a % 2 == 1 {
                d == (Deed::Query { sql: read_sql(s.worker, b % 4) }) && t.rng == b
            } else if s.live.len() == 0 || b % 3 == 0 {
                d == (Deed::Exec {
                    sql: insert_sql(s.worker, s.step, row_name(s.worker, s.step)),
                }) && t.rng == b
            } else if b % 3 == 1 {
                d == (Deed::Exec {
                    sql: update_sql(
                        s.worker,
                        s.step,
                        s.live[(xorshift(b) as int) % (s.live.len() as int)],
                    ),
                }) && t.rng == xorshift(b)
            } else {
                d == (Deed::Exec { sql: delete_sql(s.worker, s.step, s.live.last()) }) && t.rng == b
            }
        }),
{
}

/// A write is one transaction: it changes the row and notes what was done under
/// the name of the row, so that the audit can find it.
pub proof fn a_write_is_noted_in_its_transaction(worker: u64, step: u32, name: Seq<char>)
    ensures
        is_noted_write(
            insert_sql(worker, step, name),
            "BEGIN IMMEDIATE; INSERT INTO item(worker, n, name, note, price, flag, seen) VALUES ("@
                + decimal(
                worker as nat,
            ) + ", "@ + decimal(step as nat) + ", '"@ + name + "', 'row "@ + decimal(step as nat)
                + "', "@ + decimal(step as nat) + ".25, "@ + decimal((step % 2) as nat) + ", 0);"@,
            "insert"@,
            worker,
            step,
            name,
        ),
        is_noted_write(
            update_sql(worker, step, name),
            "BEGIN IMMEDIATE; UPDATE item SET note = 'edited "@ + decimal(step as nat)
                + "', seen = seen + 1, price = COALESCE(price, 0) + 0.5 WHERE name = '"@ + name
                + "';"@,
            "update"@,
            worker,
            step,
            name,
        ),
        is_noted_write(
            delete_sql(worker, step, name),
            "BEGIN IMMEDIATE; DELETE FROM item WHERE name = '"@ + name + "';"@,
            "delete"@,
            worker,
            step,
            name,
        ),
{
}

/// Whether a script is a transaction that makes a change and notes it.
pub open spec fn is_noted_write(
    sql: Seq<char>,
    change: Seq<char>,
    kind: Seq<char>,
    worker: u64,
    step: u32,
    name: Seq<char>,
) -> bool {
    sql == change + (" INSERT INTO event(worker, seq, kind, token) VALUES ("@ + decimal(
        worker as nat,
    ) + ", "@ + decimal(step as nat) + ", '"@ + kind + "', '"@ + name + "'); COMMIT"@)
}

} // verus!
