//! What bringing the schema up to date promises: each migration that is not
//! recorded is made and recorded in a transaction of its own, each that is
//! recorded is left alone.
use vstd::prelude::*;

use crate::load::{is_benign, BootPhase, BootState, DbEvent, Deed};
use crate::number::decimal;
use crate::text::{contains, lower, occurs_at, what_stands_in_a_text_is_found};

verus! {

/// The state after some events, and what is done next.
pub open spec fn boot_after(events: Seq<DbEvent>) -> (BootState, Deed)
    decreases events.len(),
{
    if events.len() == 0 {
        BootState::begin()
    } else {
        boot_after(events.drop_last()).0.step(events.last())
    }
}

/// How many questions were answered.
pub open spec fn questions(events: Seq<DbEvent>) -> int
    decreases events.len(),
{
    if events.len() == 0 {
        0
    } else {
        questions(events.drop_last()) + if events.last() is Queried {
            1int
        } else {
            0int
        }
    }
}

/// How many scripts were run since the last question was answered.
pub open spec fn scripts_since(events: Seq<DbEvent>) -> int
    decreases events.len(),
{
    if events.len() == 0 || events.last() is Queried {
        0
    } else {
        scripts_since(events.drop_last()) + 1
    }
}

/// Whether the last question was answered with 1.
pub open spec fn answer_is_one(events: Seq<DbEvent>) -> bool
    decreases events.len(),
{
    events.len() > 0 && match events.last() {
        DbEvent::Queried { result: Ok(rows) } => rows@.len() > 0 && rows@[0]@.len() > 0
            && rows@[0]@[0]@ == "1"@,
        DbEvent::Queried { .. } => false,
        _ => answer_is_one(events.drop_last()),
    }
}

/// How many questions were answered with anything but 1.
pub open spec fn not_recorded(events: Seq<DbEvent>) -> int
    decreases events.len(),
{
    if events.len() == 0 {
        0
    } else {
        not_recorded(events.drop_last()) + if events.last() is Queried && !answer_is_one(events) {
            1int
        } else {
            0int
        }
    }
}

/// Whether the statements of a migration are being run.
pub open spec fn is_migrating(events: Seq<DbEvent>) -> bool {
    questions(events) > 0 && scripts_since(events) == 0 && !answer_is_one(events)
}

/// Whether everything went well. That a migration was made before is no failure.
pub open spec fn all_went_well(events: Seq<DbEvent>) -> bool
    decreases events.len(),
{
    events.len() == 0 || (all_went_well(events.drop_last()) && match events.last() {
        DbEvent::Executed { error } => error is None || (is_migrating(events.drop_last())
            && is_benign(error->0@)),
        DbEvent::Queried { result } => result is Ok,
        DbEvent::Opened { .. } => false,
    })
}

/// Whether every event is one that was waited for.
pub open spec fn all_boot_events_awaited(events: Seq<DbEvent>) -> bool
    decreases events.len(),
{
    events.len() > 0 ==> {
        &&& all_boot_events_awaited(events.drop_last())
        &&& boot_after(events).1 != Deed::Unexpected
    }
}

/// The table in which migrations are recorded.
pub open spec fn table_of_migrations() -> Seq<char> {
    "CREATE TABLE IF NOT EXISTS schema_migration (
            version INTEGER PRIMARY KEY,
            name TEXT NOT NULL
        )"@
}

/// The statements of a migration.
pub open spec fn statements_of(version: int) -> Seq<char> {
    if version == 1 {
        "CREATE TABLE IF NOT EXISTS item (
            id INTEGER PRIMARY KEY,
            worker INTEGER NOT NULL,
            n INTEGER NOT NULL,
            name TEXT NOT NULL UNIQUE,
            note TEXT,
            price REAL,
            flag INTEGER NOT NULL DEFAULT 0
        );
        CREATE TABLE IF NOT EXISTS event (
            worker INTEGER NOT NULL,
            seq INTEGER NOT NULL,
            kind TEXT NOT NULL,
            token TEXT NOT NULL,
            PRIMARY KEY (worker, seq)
        );
        CREATE INDEX IF NOT EXISTS item_worker ON item(worker, name);
        CREATE VIEW IF NOT EXISTS item_count AS
            SELECT worker, count(*) AS c FROM item GROUP BY worker"@
    } else if version == 2 {
        "ALTER TABLE item ADD COLUMN seen INTEGER NOT NULL DEFAULT 0"@
    } else {
        "CREATE INDEX IF NOT EXISTS item_seen ON item(seen)"@
    }
}

/// The statement that records a migration.
pub open spec fn record_of(version: int) -> Seq<char> {
    "INSERT OR IGNORE INTO schema_migration(version, name) VALUES ("@ + decimal(version as nat)
        + ", '"@ + if version == 1 {
        "base tables"@
    } else if version == 2 {
        "add item.seen"@
    } else {
        "index item.seen"@
    } + "')"@
}

/// The question whether a migration is recorded.
pub open spec fn question_of(version: int) -> Seq<char> {
    "SELECT count(*) FROM schema_migration WHERE version = "@ + decimal(version as nat)
}

/// What is done where everything went well: after `asked` questions, the last of
/// them answered with 1 or not, and `since` scripts run since then.
pub open spec fn plan(asked: int, recorded: bool, since: int) -> Deed {
    let steps: int = if asked == 0 || recorded {
        1
    } else {
        3
    };
    if asked == 0 && since == 0 {
        Deed::Exec { sql: table_of_migrations() }
    } else if since == steps {
        if asked == 3 {
            Deed::Done
        } else {
            Deed::Exec { sql: "BEGIN IMMEDIATE"@ }
        }
    } else if since == steps + 1 {
        Deed::Query { sql: question_of(asked + 1) }
    } else if recorded {
        Deed::Exec { sql: "COMMIT"@ }
    } else if since == 0 {
        Deed::Exec { sql: statements_of(asked) }
    } else if since == 1 {
        Deed::Exec { sql: record_of(asked) }
    } else {
        Deed::Exec { sql: "COMMIT"@ }
    }
}

spec fn is_in_boot_phase(s: BootState, events: Seq<DbEvent>) -> bool {
    let asked = questions(events);
    let one = answer_is_one(events);
    let since = scripts_since(events);
    let steps: int = if asked == 0 || one {
        1
    } else {
        3
    };
    match s.phase {
        BootPhase::Table => asked == 0 && since == 0 && s.version == 1,
        BootPhase::Begin => since == steps && s.version == asked + 1,
        BootPhase::Count => since == steps + 1 && s.version == asked + 1,
        BootPhase::Skip => asked > 0 && one && since == 0 && s.version == asked,
        BootPhase::Apply => asked > 0 && !one && since == 0 && s.version == asked,
        BootPhase::Record => asked > 0 && !one && since == 1 && s.version == asked,
        BootPhase::Commit => asked > 0 && !one && since == 2 && s.version == asked,
        BootPhase::Rollback => false,
        BootPhase::Over => asked == 3 && since == steps,
    }
}

proof fn a_boot_is_its_events(events: Seq<DbEvent>)
    requires
        all_boot_events_awaited(events),
        all_went_well(events),
    ensures
        ({
            let (s, d) = boot_after(events);
            &&& s.wf()
            &&& is_in_boot_phase(s, events)
            &&& 0 <= questions(events) <= 3
            &&& d == plan(questions(events), answer_is_one(events), scripts_since(events))
            &&& s.applied == if s.phase == BootPhase::Table {
                0
            } else if s.phase == BootPhase::Apply || s.phase == BootPhase::Record || s.phase
                == BootPhase::Commit {
                not_recorded(events)
            } else {
                not_recorded(events) + 1
            }
            &&& 0 <= not_recorded(events) <= questions(events)
            &&& questions(events) == 0 ==> !answer_is_one(events)
        }),
    decreases events.len(),
{
    if events.len() > 0 {
        let before = events.drop_last();
        a_boot_is_its_events(before);
    }
}

/// Each migration is looked up in a transaction; one that is not recorded is
/// made and recorded before the transaction ends, one that is recorded is left
/// alone, and after the third all is done. As many changes are counted as
/// migrations were made, and the table of migrations.
pub proof fn migrations_go_by_the_plan(events: Seq<DbEvent>)
    requires
        all_boot_events_awaited(events),
        all_went_well(events),
    ensures
        boot_after(events).1 == plan(
            questions(events),
            answer_is_one(events),
            scripts_since(events),
        ),
        boot_after(events).1 == Deed::Done ==> boot_after(events).0.applied == 1 + not_recorded(
            events,
        ),
{
    a_boot_is_its_events(events);
}

/// A migration that the count does not say to be recorded is made, then recorded,
/// then committed; a commit follows the count at once only where it says 1.
pub proof fn a_missing_migration_is_made(events: Seq<DbEvent>, rows: Vec<Vec<String>>)
    requires
        all_boot_events_awaited(events),
        all_went_well(events),
        events.len() > 0,
        events.last() == (DbEvent::Queried { result: Ok(rows) }),
    ensures
        ({
            let done = DbEvent::Executed { error: None };
            let version = questions(events);
            let says_one = rows@.len() > 0 && rows@[0]@.len() > 0 && rows@[0]@[0]@ == "1"@;
            &&& 1 <= version <= 3
            &&& says_one ==> boot_after(events).1 == (Deed::Exec { sql: "COMMIT"@ })
            &&& !says_one ==> {
                &&& boot_after(events).1 == (Deed::Exec { sql: statements_of(version) })
                &&& boot_after(events.push(done)).1 == (Deed::Exec { sql: record_of(version) })
                &&& boot_after(events.push(done).push(done)).1 == (Deed::Exec { sql: "COMMIT"@ })
            }
        }),
{
    let done = DbEvent::Executed { error: None };
    a_boot_is_its_events(events);
    assert(events.push(done).drop_last() == events);
    assert(events.push(done).push(done).drop_last() == events.push(done));
}

/// On a new database, where no count says 1 and nothing fails, a run that is done
/// has made and recorded all three migrations, in order, and counts four changes.
pub proof fn a_new_database_gets_every_migration(events: Seq<DbEvent>)
    requires
        all_boot_events_awaited(events),
        all_went_well(events),
        not_recorded(events) == questions(events),
        boot_after(events).1 == Deed::Done,
    ensures
        events.len() == 16,
        boot_after(events).0.applied == 4,
        forall|k: int|
            0 <= k < 16 ==> (#[trigger] boot_after(events.take(k))).1 == if k == 0 {
                Deed::Exec { sql: table_of_migrations() }
            } else if (k - 1) % 5 == 0 {
                Deed::Exec { sql: "BEGIN IMMEDIATE"@ }
            } else if (k - 1) % 5 == 1 {
                Deed::Query { sql: question_of((k - 1) / 5 + 1) }
            } else if (k - 1) % 5 == 2 {
                Deed::Exec { sql: statements_of((k - 1) / 5 + 1) }
            } else if (k - 1) % 5 == 3 {
                Deed::Exec { sql: record_of((k - 1) / 5 + 1) }
            } else {
                Deed::Exec { sql: "COMMIT"@ }
            },
{
    a_boot_is_its_events(events);
    fresh_length(events);
    assert forall|k: int| 0 <= k < 16 implies (#[trigger] boot_after(events.take(k))).1 == if k
        == 0 {
        Deed::Exec { sql: table_of_migrations() }
    } else if (k - 1) % 5 == 0 {
        Deed::Exec { sql: "BEGIN IMMEDIATE"@ }
    } else if (k - 1) % 5 == 1 {
        Deed::Query { sql: question_of((k - 1) / 5 + 1) }
    } else if (k - 1) % 5 == 2 {
        Deed::Exec { sql: statements_of((k - 1) / 5 + 1) }
    } else if (k - 1) % 5 == 3 {
        Deed::Exec { sql: record_of((k - 1) / 5 + 1) }
    } else {
        Deed::Exec { sql: "COMMIT"@ }
    } by {
        prefix_is_fresh(events, k);
        a_boot_is_its_events(events.take(k));
        fresh_length(events.take(k));
    }
}

proof fn fresh_length(events: Seq<DbEvent>)
    requires
        all_boot_events_awaited(events),
        all_went_well(events),
        not_recorded(events) == questions(events),
    ensures
        questions(events) > 0 ==> !answer_is_one(events) && events.len() == 5 * questions(events)
            - 2 + scripts_since(events),
        questions(events) == 0 ==> events.len() == scripts_since(events) && !answer_is_one(events),
    decreases events.len(),
{
    a_boot_is_its_events(events);
    if events.len() > 0 {
        let before = events.drop_last();
        a_boot_is_its_events(before);
        fresh_length(before);
    }
}

proof fn prefix_is_fresh(events: Seq<DbEvent>, k: int)
    requires
        all_boot_events_awaited(events),
        all_went_well(events),
        not_recorded(events) == questions(events),
        0 <= k <= events.len(),
    ensures
        all_boot_events_awaited(events.take(k)),
        all_went_well(events.take(k)),
        not_recorded(events.take(k)) == questions(events.take(k)),
    decreases events.len(),
{
    if k == events.len() {
        assert(events.take(k) == events);
    } else {
        let before = events.drop_last();
        a_boot_is_its_events(before);
        prefix_is_fresh(before, k);
        assert(before.take(k) == events.take(k));
    }
}

/// Where a step fails it is over, with what failed as the error; within a
/// transaction the transaction is undone first. A migration that was made before
/// counts as made.
pub proof fn a_failed_migration_is_given_up(events: Seq<DbEvent>, e: String, undone: DbEvent)
    requires
        all_boot_events_awaited(events),
        events.len() > 0,
        all_went_well(events.drop_last()),
        !all_went_well(events),
        events.last() == (DbEvent::Executed { error: Some(e) }) || events.last() == (
        DbEvent::Queried { result: Err(e) }),
        undone is Executed,
    ensures
        ({
            let d = boot_after(events.drop_last()).1;
            let failed = boot_after(events).1;
            if d is Query || (d matches Deed::Exec { sql } && (sql == statements_of(
                questions(events),
            ) && is_migrating(events.drop_last()) || scripts_since(events) == 2 && questions(
                events,
            ) > 0 && !answer_is_one(events))) {
                &&& failed == (Deed::Exec { sql: "ROLLBACK"@ })
                &&& boot_after(events.push(undone)).1 == (Deed::Failed { error: e@ })
            } else {
                failed == (Deed::Failed { error: e@ })
            }
        }),
{
    a_boot_is_its_events(events.drop_last());
    assert(events.push(undone).drop_last() == events);
}

/// Whatever is asked for is taken.
pub proof fn a_boot_takes_what_it_asks_for(events: Seq<DbEvent>, event: DbEvent)
    requires
        all_boot_events_awaited(events),
        all_went_well(events),
        match boot_after(events).1 {
            Deed::Exec { .. } => event is Executed,
            Deed::Query { .. } => event is Queried,
            _ => false,
        },
    ensures
        all_boot_events_awaited(events.push(event)),
{
    a_boot_is_its_events(events);
    assert(events.push(event).drop_last() == events);
}

/// A migration that fails was made before if the failure says so, in whatever
/// case it says it: that a column is there twice, or that something exists.
pub proof fn what_was_made_before_is_no_failure(a: Seq<char>, said: Seq<char>, b: Seq<char>)
    requires
        lower(said) == "duplicate column"@ || lower(said) == "already exists"@,
    ensures
        is_benign(a + said + b),
{
    let e = a + said + b;
    assert(lower(e) == lower(a) + lower(said) + lower(b));
    what_stands_in_a_text_is_found(lower(a), lower(said), lower(b));
}

/// A failure that says neither is one.
pub proof fn any_other_failure_counts(e: Seq<char>)
    requires
        forall|i: int|
            0 <= i && i + 16 <= e.len() ==> lower(#[trigger] e.subrange(i, i + 16))
                != "duplicate column"@,
        forall|i: int|
            0 <= i && i + 14 <= e.len() ==> lower(#[trigger] e.subrange(i, i + 14))
                != "already exists"@,
    ensures
        !is_benign(e),
{
    reveal_strlit("duplicate column");
    reveal_strlit("already exists");
    if contains(lower(e), "duplicate column"@) {
        let i = choose|i: int| occurs_at(lower(e), "duplicate column"@, i);
        assert(lower(e.subrange(i, i + 16)) == lower(e).subrange(i, i + 16));
    }
    if contains(lower(e), "already exists"@) {
        let i = choose|i: int| occurs_at(lower(e), "already exists"@, i);
        assert(lower(e.subrange(i, i + 14)) == lower(e).subrange(i, i + 14));
    }
}

} // verus!
