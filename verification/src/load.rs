//! A load process: it brings the schema up to date, then reads and writes at
//! random, and keeps account of what it did.
use vstd::prelude::*;

use crate::number::{decimal, u64_text};
use crate::text::{contains, contains_text, copy_text, lower, lower_text, same_text};

verus! {

/// What happened on the connection.
#[derive(Debug)]
pub enum DbEvent {
    /// It was opened, or why not.
    Opened { error: Option<String> },
    /// A script was run, or why not.
    Executed { error: Option<String> },
    /// A query gave these rows, or why none.
    Queried { result: Result<Vec<Vec<String>>, String> },
}

/// What to do on the connection.
#[derive(Debug)]
pub enum DbAction {
    /// Close it, if it is open, and open it.
    Open,
    Exec { sql: String },
    Query { sql: String },
    /// All is done.
    Done,
    /// It failed.
    Failed { error: String },
    /// The event does not belong here.
    Unexpected,
}

/// What to do on the connection.
pub enum Deed {
    Open,
    Exec { sql: Seq<char> },
    Query { sql: Seq<char> },
    Done,
    Failed { error: Seq<char> },
    Unexpected,
}

impl View for DbAction {
    type V = Deed;

    open spec fn view(&self) -> Deed {
        match self {
            DbAction::Open => Deed::Open,
            DbAction::Exec { sql } => Deed::Exec { sql: sql@ },
            DbAction::Query { sql } => Deed::Query { sql: sql@ },
            DbAction::Done => Deed::Done,
            DbAction::Failed { error } => Deed::Failed { error: error@ },
            DbAction::Unexpected => Deed::Unexpected,
        }
    }
}

fn exec(sql: &str) -> (a: DbAction)
    ensures
        a@ == (Deed::Exec { sql: sql@ }),
{
    DbAction::Exec { sql: copy_text(sql) }
}

// ------------------------------------------------------------- migrations

/// The table in which migrations are recorded.
pub const MIGRATION_TABLE: &'static str =
    "CREATE TABLE IF NOT EXISTS schema_migration (
            version INTEGER PRIMARY KEY,
            name TEXT NOT NULL
        )";

/// How many migrations there are.
pub const MIGRATIONS: u32 = 3;

/// The statements of the first migration.
pub const BASE_TABLES: &'static str = "CREATE TABLE IF NOT EXISTS item (
            id INTEGER PRIMARY KEY,
            worker INTEGER NOT NULL,
            n INTEGER NOT NULL,
            name TEXT NOT NULL UNIQUE,
            note TEXT,
            price REAL,
            flag INTEGER NOT NULL DEFAULT 0
        );
        CREATE TABLE IF NOT EXISTS event (
            worker INTEGER NOT NULL,
            seq INTEGER NOT NULL,
            kind TEXT NOT NULL,
            token TEXT NOT NULL,
            PRIMARY KEY (worker, seq)
        );
        CREATE INDEX IF NOT EXISTS item_worker ON item(worker, name);
        CREATE VIEW IF NOT EXISTS item_count AS
            SELECT worker, count(*) AS c FROM item GROUP BY worker";

/// The name of a migration.
pub open spec fn migration_name(version: u32) -> Seq<char> {
    if version == 1 {
        "base tables"@
    } else if version == 2 {
        "add item.seen"@
    } else {
        "index item.seen"@
    }
}

/// The statements of a migration.
pub open spec fn migration_sql(version: u32) -> Seq<char> {
    if version == 1 {
        BASE_TABLES@
    } else if version == 2 {
        "ALTER TABLE item ADD COLUMN seen INTEGER NOT NULL DEFAULT 0"@
    } else {
        "CREATE INDEX IF NOT EXISTS item_seen ON item(seen)"@
    }
}

/// The question whether a migration is recorded.
pub open spec fn count_sql(version: u32) -> Seq<char> {
    "SELECT count(*) FROM schema_migration WHERE version = "@ + decimal(version as nat)
}

/// The statement that records a migration.
pub open spec fn record_sql(version: u32) -> Seq<char> {
    "INSERT OR IGNORE INTO schema_migration(version, name) VALUES ("@ + decimal(version as nat)
        + ", '"@ + migration_name(version) + "')"@
}

/// Whether the first value of the rows is 1.
pub open spec fn says_one(rows: Seq<Vec<String>>) -> bool {
    rows.len() > 0 && rows[0]@.len() > 0 && rows[0]@[0]@ == "1"@
}

/// Whether a failed migration says only that it was made before.
pub open spec fn is_benign(error: Seq<char>) -> bool {
    contains(lower(error), "duplicate column"@) || contains(lower(error), "already exists"@)
}

/// Whether a failed migration says only that it was made before.
pub fn benign_migration(err: &str) -> (r: bool)
    ensures
        r == is_benign(err@),
{
    let lower = lower_text(err);
    contains_text(lower.as_str(), "duplicate column") || contains_text(
        lower.as_str(),
        "already exists",
    )
}

/// What bringing the schema up to date waits for.
#[derive(Debug, Clone, Copy, PartialEq, Eq, Structural)]
pub enum BootPhase {
    /// The table of migrations is being made.
    Table,
    /// The transaction of a migration is being begun.
    Begin,
    /// The question whether it is recorded is being asked.
    Count,
    /// It is; the transaction is being ended.
    Skip,
    /// Its statements are being run.
    Apply,
    /// It is being recorded.
    Record,
    /// The transaction is being ended.
    Commit,
    /// Something failed; the transaction is being undone.
    Rollback,
    Over,
}

/// The state of bringing the schema up to date.
pub struct BootState {
    pub phase: BootPhase,
    /// The migration at hand.
    pub version: u32,
    /// How many changes were made.
    pub applied: u32,
    /// What failed.
    pub error: Seq<char>,
}

impl BootState {
    /// The first step.
    pub open spec fn begin() -> (BootState, Deed) {
        (
            BootState { phase: BootPhase::Table, version: 1, applied: 0, error: seq![] },
            Deed::Exec { sql: MIGRATION_TABLE@ },
        )
    }

    /// It failed.
    pub open spec fn fail(self, error: Seq<char>) -> (BootState, Deed) {
        (BootState { phase: BootPhase::Over, ..self }, Deed::Failed { error })
    }

    /// It failed within a transaction.
    pub open spec fn roll_back(self, error: Seq<char>) -> (BootState, Deed) {
        (
            BootState { phase: BootPhase::Rollback, error, ..self },
            Deed::Exec { sql: "ROLLBACK"@ },
        )
    }

    /// The migration comes next, if there is one.
    pub open spec fn migrate(self, version: u32) -> (BootState, Deed) {
        if version > MIGRATIONS {
            (BootState { phase: BootPhase::Over, ..self }, Deed::Done)
        } else {
            (
                BootState { phase: BootPhase::Begin, version, ..self },
                Deed::Exec { sql: "BEGIN IMMEDIATE"@ },
            )
        }
    }

    /// What an event does.
    pub open spec fn step(self, event: DbEvent) -> (BootState, Deed) {
        match (self.phase, event) {
            (BootPhase::Table, DbEvent::Executed { error }) => match error {
                None => BootState { applied: 1, ..self }.migrate(1),
                Some(e) => self.fail(e@),
            },
            (BootPhase::Begin, DbEvent::Executed { error }) => match error {
                None => (
                    BootState { phase: BootPhase::Count, ..self },
                    Deed::Query { sql: count_sql(self.version) },
                ),
                Some(e) => self.fail(e@),
            },
            (BootPhase::Count, DbEvent::Queried { result }) => match result {
                Ok(rows) => if says_one(rows@) {
                    (
                        BootState { phase: BootPhase::Skip, ..self },
                        Deed::Exec { sql: "COMMIT"@ },
                    )
                } else {
                    (
                        BootState { phase: BootPhase::Apply, ..self },
                        Deed::Exec { sql: migration_sql(self.version) },
                    )
                },
                Err(e) => self.roll_back(e@),
            },
            (BootPhase::Skip, DbEvent::Executed { error }) => match error {
                None => self.migrate((self.version + 1) as u32),
                Some(e) => self.fail(e@),
            },
            (BootPhase::Apply, DbEvent::Executed { error }) => if error is None || is_benign(
                error->0@,
            ) {
                (
                    BootState { phase: BootPhase::Record, ..self },
                    Deed::Exec { sql: record_sql(self.version) },
                )
            } else {
                self.roll_back(error->0@)
            },
            (BootPhase::Record, DbEvent::Executed { error }) => match error {
                None => (
                    BootState { phase: BootPhase::Commit, ..self },
                    Deed::Exec { sql: "COMMIT"@ },
                ),
                Some(e) => self.roll_back(e@),
            },
            (BootPhase::Commit, DbEvent::Executed { error }) => match error {
                None => BootState { applied: (self.applied + 1) as u32, ..self }.migrate(
                    (self.version + 1) as u32,
                ),
                Some(e) => self.fail(e@),
            },
            (BootPhase::Rollback, DbEvent::Executed { .. }) => self.fail(self.error),
            _ => (self, Deed::Unexpected),
        }
    }

    /// What holds of every state.
    pub open spec fn wf(self) -> bool {
        &&& 1 <= self.version <= MIGRATIONS
        &&& self.phase == BootPhase::Table ==> self.applied == 0
        &&& self.phase != BootPhase::Over ==> self.applied <= self.version
        &&& self.applied <= MIGRATIONS + 1
    }
}

/// Bringing the schema up to date.
#[derive(Debug)]
pub struct Boot {
    phase: BootPhase,
    version: u32,
    applied: u32,
    error: String,
}

impl View for Boot {
    type V = BootState;

    closed spec fn view(&self) -> BootState {
        BootState {
            phase: self.phase,
            version: self.version,
            applied: self.applied,
            error: self.error@,
        }
    }
}

impl Boot {
    /// The first step.
    pub fn begin() -> (r: (Boot, DbAction))
        ensures
            r.0@ == BootState::begin().0,
            r.1@ == BootState::begin().1,
            r.0@.wf(),
    {
        let boot = Boot { phase: BootPhase::Table, version: 1, applied: 0, error: String::new() };
        assert(boot@.error == Seq::<char>::empty());
        (boot, exec(MIGRATION_TABLE))
    }

    /// How many changes were made.
    pub fn applied(&self) -> (n: u32)
        ensures
            n == self@.applied,
    {
        self.applied
    }

    fn fail(&mut self, error: String) -> (a: DbAction)
        ensures
            final(self)@ == old(self)@.fail(error@).0,
            a@ == old(self)@.fail(error@).1,
    {
        self.phase = BootPhase::Over;
        DbAction::Failed { error }
    }

    fn roll_back(&mut self, error: String) -> (a: DbAction)
        ensures
            final(self)@ == old(self)@.roll_back(error@).0,
            a@ == old(self)@.roll_back(error@).1,
    {
        self.phase = BootPhase::Rollback;
        self.error = error;
        exec("ROLLBACK")
    }

    fn migrate(&mut self, version: u32) -> (a: DbAction)
        ensures
            final(self)@ == old(self)@.migrate(version).0,
            a@ == old(self)@.migrate(version).1,
    {
        if version > MIGRATIONS {
            self.phase = BootPhase::Over;
            DbAction::Done
        } else {
            self.phase = BootPhase::Begin;
            self.version = version;
            exec("BEGIN IMMEDIATE")
        }
    }

    /// Takes an event and says what to do.
    pub fn step(&mut self, event: DbEvent) -> (a: DbAction)
        requires
            old(self)@.wf(),
        ensures
            final(self)@ == old(self)@.step(event).0,
            a@ == old(self)@.step(event).1,
            final(self)@.wf(),
    {
        match (self.phase, event) {
            (BootPhase::Table, DbEvent::Executed { error }) => match error {
                None => {
                    self.applied = 1;
                    self.migrate(1)
                },
                Some(e) => self.fail(e),
            },
            (BootPhase::Begin, DbEvent::Executed { error }) => match error {
                None => {
                    self.phase = BootPhase::Count;
                    let mut sql = copy_text(
                        "SELECT count(*) FROM schema_migration WHERE version = ",
                    );
                    sql.append(u64_text(self.version as u64).as_str());
                    DbAction::Query { sql }
                },
                Some(e) => self.fail(e),
            },
            (BootPhase::Count, DbEvent::Queried { result }) => match result {
                Ok(rows) => {
                    if rows.len() > 0 && rows[0].len() > 0 && same_text(rows[0][0].as_str(), "1") {
                        self.phase = BootPhase::Skip;
                        exec("COMMIT")
                    } else {
                        self.phase = BootPhase::Apply;
                        if self.version == 1 {
                            exec(BASE_TABLES)
                        } else if self.version == 2 {
                            exec("ALTER TABLE item ADD COLUMN seen INTEGER NOT NULL DEFAULT 0")
                        } else {
                            exec("CREATE INDEX IF NOT EXISTS item_seen ON item(seen)")
                        }
                    }
                },
                Err(e) => self.roll_back(e),
            },
            (BootPhase::Skip, DbEvent::Executed { error }) => match error {
                None => {
                    let next: u32 = self.version + 1;
                    self.migrate(next)
                },
                Some(e) => self.fail(e),
            },
            (BootPhase::Apply, DbEvent::Executed { error }) => {
                match error {
                    None => {},
                    Some(e) => {
                        if !benign_migration(e.as_str()) {
                            return self.roll_back(e);
                        }
                    },
                }
                self.phase = BootPhase::Record;
                let mut sql = copy_text(
                    "INSERT OR IGNORE INTO schema_migration(version, name) VALUES (",
                );
                sql.append(u64_text(self.version as u64).as_str());
                sql.append(", '");
                if self.version == 1 {
                    sql.append("base tables");
                } else if self.version == 2 {
                    sql.append("add item.seen");
                } else {
                    sql.append("index item.seen");
                }
                sql.append("')");
                DbAction::Exec { sql }
            },
            (BootPhase::Record, DbEvent::Executed { error }) => match error {
                None => {
                    self.phase = BootPhase::Commit;
                    exec("COMMIT")
                },
                Some(e) => self.roll_back(e),
            },
            (BootPhase::Commit, DbEvent::Executed { error }) => match error {
                None => {
                    self.applied = self.applied + 1;
                    let next: u32 = self.version + 1;
                    self.migrate(next)
                },
                Some(e) => self.fail(e),
            },
            (BootPhase::Rollback, DbEvent::Executed { .. }) => {
                let error = self.error.clone();
                self.fail(error)
            },
            _ => DbAction::Unexpected,
        }
    }
}

} // verus!
