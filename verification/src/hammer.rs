//! The work of one load process.
use vstd::prelude::*;

use crate::claim::{a_report_reads_back, claimed, is_tight, report, report_text, Claim, ClaimState};
use crate::load::{Boot, BootState, DbAction, DbEvent, Deed};
use crate::number::{decimal, decimal_is_digits, is_digit, u64_text};
use crate::rng::{an_odd_seed_is_not_zero, numbers_stay_above_zero, xorshift, Rng};
use crate::text::{copy_text, is_space, texts};

verus! {

/// After how many operations a load process opens its connection anew.
pub const REOPEN_EVERY: u32 = 200;

/// What a load process sets on a connection that it opened.
pub const SETUP: &'static str = "PRAGMA foreign_keys = ON";

/// The name of a row: who inserted it, and with which operation.
pub open spec fn row_name(worker: u64, step: u32) -> Seq<char> {
    "w"@ + decimal(worker as nat) + "-s"@ + decimal(step as nat)
}

/// The end of each writing script: what was done is noted, and the transaction
/// ends.
pub open spec fn noted(worker: u64, step: u32, kind: Seq<char>, token: Seq<char>) -> Seq<char> {
    " INSERT INTO event(worker, seq, kind, token) VALUES ("@ + decimal(worker as nat) + ", "@
        + decimal(step as nat) + ", '"@ + kind + "', '"@ + token + "'); COMMIT"@
}

/// The script that inserts a row.
pub open spec fn insert_sql(worker: u64, step: u32, name: Seq<char>) -> Seq<char> {
    "BEGIN IMMEDIATE; INSERT INTO item(worker, n, name, note, price, flag, seen) VALUES ("@
        + decimal(worker as nat) + ", "@ + decimal(step as nat) + ", '"@ + name + "', 'row "@
        + decimal(step as nat) + "', "@ + decimal(step as nat) + ".25, "@ + decimal(
        (step % 2) as nat,
    ) + ", 0);"@ + noted(worker, step, "insert"@, name)
}

/// The script that changes a row.
pub open spec fn update_sql(worker: u64, step: u32, name: Seq<char>) -> Seq<char> {
    "BEGIN IMMEDIATE; UPDATE item SET note = 'edited "@ + decimal(step as nat)
        + "', seen = seen + 1, price = COALESCE(price, 0) + 0.5 WHERE name = '"@ + name + "';"@
        + noted(worker, step, "update"@, name)
}

/// The script that deletes a row.
pub open spec fn delete_sql(worker: u64, step: u32, name: Seq<char>) -> Seq<char> {
    "BEGIN IMMEDIATE; DELETE FROM item WHERE name = '"@ + name + "';"@ + noted(
        worker,
        step,
        "delete"@,
        name,
    )
}

/// One of the queries.
pub open spec fn read_sql(worker: u64, which: u64) -> Seq<char> {
    if which == 0 {
        "SELECT id, name, note, price, seen FROM item WHERE worker = "@ + decimal(worker as nat)
            + " ORDER BY id DESC LIMIT 8"@
    } else if which == 1 {
        "SELECT worker, c FROM item_count ORDER BY worker"@
    } else if which == 2 {
        "SELECT kind, count(*) FROM event WHERE worker = "@ + decimal(worker as nat)
            + " GROUP BY kind"@
    } else {
        "SELECT i.name, e.kind FROM item i LEFT JOIN event e ON e.token = i.name AND e.worker = i.worker WHERE i.worker = "@
            + decimal(worker as nat) + " ORDER BY i.id DESC LIMIT 8"@
    }
}

fn append_noted(sql: &mut String, worker: u64, step: u32, kind: &str, token: &str)
    ensures
        final(sql)@ == old(sql)@ + noted(worker, step, kind@, token@),
{
    let mut end = copy_text(" INSERT INTO event(worker, seq, kind, token) VALUES (");
    end.append(u64_text(worker).as_str());
    end.append(", ");
    end.append(u64_text(step as u64).as_str());
    end.append(", '");
    end.append(kind);
    end.append("', '");
    end.append(token);
    end.append("'); COMMIT");
    sql.append(end.as_str());
}

fn row_name_of(worker: u64, step: u32) -> (name: String)
    ensures
        name@ == row_name(worker, step),
{
    let mut name = copy_text("w");
    name.append(u64_text(worker).as_str());
    name.append("-s");
    name.append(u64_text(step as u64).as_str());
    name
}

fn insert_script(worker: u64, step: u32, name: &str) -> (sql: String)
    ensures
        sql@ == insert_sql(worker, step, name@),
{
    let number = u64_text(step as u64);
    let mut sql = copy_text(
        "BEGIN IMMEDIATE; INSERT INTO item(worker, n, name, note, price, flag, seen) VALUES (",
    );
    sql.append(u64_text(worker).as_str());
    sql.append(", ");
    sql.append(number.as_str());
    sql.append(", '");
    sql.append(name);
    sql.append("', 'row ");
    sql.append(number.as_str());
    sql.append("', ");
    sql.append(number.as_str());
    sql.append(".25, ");
    sql.append(u64_text((step % 2) as u64).as_str());
    sql.append(", 0);");
    append_noted(&mut sql, worker, step, "insert", name);
    sql
}

fn update_script(worker: u64, step: u32, name: &str) -> (sql: String)
    ensures
        sql@ == update_sql(worker, step, name@),
{
    let mut sql = copy_text("BEGIN IMMEDIATE; UPDATE item SET note = 'edited ");
    sql.append(u64_text(step as u64).as_str());
    sql.append("', seen = seen + 1, price = COALESCE(price, 0) + 0.5 WHERE name = '");
    sql.append(name);
    sql.append("';");
    append_noted(&mut sql, worker, step, "update", name);
    sql
}

fn delete_script(worker: u64, step: u32, name: &str) -> (sql: String)
    ensures
        sql@ == delete_sql(worker, step, name@),
{
    let mut sql = copy_text("BEGIN IMMEDIATE; DELETE FROM item WHERE name = '");
    sql.append(name);
    sql.append("';");
    append_noted(&mut sql, worker, step, "delete", name);
    sql
}

fn read_query(worker: u64, which: u32) -> (sql: String)
    ensures
        sql@ == read_sql(worker, which as u64),
{
    if which == 0 {
        let mut sql = copy_text("SELECT id, name, note, price, seen FROM item WHERE worker = ");
        sql.append(u64_text(worker).as_str());
        sql.append(" ORDER BY id DESC LIMIT 8");
        sql
    } else if which == 1 {
        copy_text("SELECT worker, c FROM item_count ORDER BY worker")
    } else if which == 2 {
        let mut sql = copy_text("SELECT kind, count(*) FROM event WHERE worker = ");
        sql.append(u64_text(worker).as_str());
        sql.append(" GROUP BY kind");
        sql
    } else {
        let mut sql = copy_text(
            "SELECT i.name, e.kind FROM item i LEFT JOIN event e ON e.token = i.name AND e.worker = i.worker WHERE i.worker = ",
        );
        sql.append(u64_text(worker).as_str());
        sql.append(" ORDER BY i.id DESC LIMIT 8");
        sql
    }
}

/// What a load process waits for.
#[derive(Debug, Clone, Copy, PartialEq, Eq, Structural)]
pub enum LoadPhase {
    /// The connection is being opened for the first time.
    Opening,
    /// It is being set up.
    SettingUp,
    /// The schema is being brought up to date.
    Booting,
    /// The connection is being opened anew.
    Reopening,
    /// It is being set up again.
    SettingUpAgain,
    /// A row is being inserted.
    Inserting,
    /// A row is being changed.
    Updating,
    /// A row is being deleted.
    Deleting,
    /// A query is being made.
    Reading,
    /// All operations were done.
    Through,
    /// It failed.
    Over,
}

/// The state of a load process.
pub struct LoadState {
    pub worker: u64,
    pub ops: u32,
    /// The state of the random numbers.
    pub rng: u64,
    /// The rows that this process inserted and did not delete.
    pub live: Seq<Seq<char>>,
    /// How many operations were done.
    pub step: u32,
    pub reads: u32,
    pub inserts: u32,
    pub updates: u32,
    pub deletes: u32,
    pub sum_seq: u64,
    /// The row of the first write.
    pub sample: Seq<char>,
    /// The row of the last write.
    pub last: Seq<char>,
    /// The row of the write at hand.
    pub recorded: Seq<char>,
    pub boot: BootState,
    pub phase: LoadPhase,
}

impl LoadState {
    /// The state before anything was done.
    pub open spec fn begin(worker: u64, ops: u32, seed: u64) -> LoadState {
        LoadState {
            worker,
            ops,
            rng: seed | 1,
            live: seq![],
            step: 0,
            reads: 0,
            inserts: 0,
            updates: 0,
            deletes: 0,
            sum_seq: 0,
            sample: seq![],
            last: seq![],
            recorded: seq![],
            boot: BootState::begin().0,
            phase: LoadPhase::Opening,
        }
    }

    /// How many writes were done.
    pub open spec fn writes(self) -> int {
        self.inserts + self.updates + self.deletes
    }

    /// It failed.
    pub open spec fn fail(self, error: Seq<char>) -> (LoadState, Deed) {
        (LoadState { phase: LoadPhase::Over, ..self }, Deed::Failed { error })
    }

    /// The next operation is drawn: a read or a write, each as often as the
    /// other, and of the writes each kind as often as the others. Without a row
    /// to change or delete, one is inserted.
    pub open spec fn draw(self) -> (LoadState, Deed) {
        let r1 = xorshift(self.rng);
        let r2 = xorshift(r1);
        if r1 % 2 == 0 {
            if r2 % 3 == 0 || self.live.len() == 0 {
                let name = row_name(self.worker, self.step);
                (
                    LoadState {
                        rng: r2,
                        live: self.live.push(name),
                        recorded: name,
                        phase: LoadPhase::Inserting,
                        ..self
                    },
                    Deed::Exec { sql: insert_sql(self.worker, self.step, name) },
                )
            } else if r2 % 3 == 1 {
                let r3 = xorshift(r2);
                let name = self.live[(r3 as int) % (self.live.len() as int)];
                (
                    LoadState { rng: r3, recorded: name, phase: LoadPhase::Updating, ..self },
                    Deed::Exec { sql: update_sql(self.worker, self.step, name) },
                )
            } else {
                let name = self.live.last();
                (
                    LoadState {
                        rng: r2,
                        live: self.live.drop_last(),
                        recorded: name,
                        phase: LoadPhase::Deleting,
                        ..self
                    },
                    Deed::Exec { sql: delete_sql(self.worker, self.step, name) },
                )
            }
        } else {
            (
                LoadState { rng: r2, phase: LoadPhase::Reading, ..self },
                Deed::Query { sql: read_sql(self.worker, r2 % 4) },
            )
        }
    }

    /// The process goes on after an operation, or is done. One that wrote
    /// nothing has failed.
    pub open spec fn go_on(self) -> (LoadState, Deed) {
        if self.step >= self.ops {
            (
                LoadState { phase: LoadPhase::Through, ..self },
                if self.writes() == 0 {
                    Deed::Failed {
                        error: "worker "@ + decimal(self.worker as nat) + " performed no writes"@,
                    }
                } else {
                    Deed::Done
                },
            )
        } else if self.step > 0 && self.step % REOPEN_EVERY == 0 {
            (LoadState { phase: LoadPhase::Reopening, ..self }, Deed::Open)
        } else {
            self.draw()
        }
    }

    /// A write went well.
    pub open spec fn wrote(self) -> LoadState {
        LoadState {
            sample: if self.sample.len() == 0 {
                self.recorded
            } else {
                self.sample
            },
            last: self.recorded,
            sum_seq: (self.sum_seq + self.step) as u64,
            step: (self.step + 1) as u32,
            ..self
        }
    }

    /// What an event does.
    pub open spec fn step(self, event: DbEvent) -> (LoadState, Deed) {
        match (self.phase, event) {
            (LoadPhase::Opening, DbEvent::Opened { error }) => match error {
                None => (
                    LoadState { phase: LoadPhase::SettingUp, ..self },
                    Deed::Exec { sql: SETUP@ },
                ),
                Some(e) => self.fail(e@),
            },
            (LoadPhase::SettingUp, DbEvent::Executed { error }) => match error {
                None => (
                    LoadState { phase: LoadPhase::Booting, boot: BootState::begin().0, ..self },
                    BootState::begin().1,
                ),
                Some(e) => self.fail(e@),
            },
            (LoadPhase::Booting, _) => {
                let (boot, deed) = self.boot.step(event);
                let next = LoadState { boot, ..self };
                match deed {
                    Deed::Done => next.go_on(),
                    Deed::Failed { error } => next.fail(error),
                    _ => (next, deed),
                }
            },
            (LoadPhase::Reopening, DbEvent::Opened { error }) => match error {
                None => (
                    LoadState { phase: LoadPhase::SettingUpAgain, ..self },
                    Deed::Exec { sql: SETUP@ },
                ),
                Some(e) => self.fail(e@),
            },
            (LoadPhase::SettingUpAgain, DbEvent::Executed { error }) => match error {
                None => self.draw(),
                Some(e) => self.fail(e@),
            },
            (LoadPhase::Inserting, DbEvent::Executed { error }) => match error {
                None => LoadState { inserts: (self.inserts + 1) as u32, ..self.wrote() }.go_on(),
                Some(e) => self.fail(e@),
            },
            (LoadPhase::Updating, DbEvent::Executed { error }) => match error {
                None => LoadState { updates: (self.updates + 1) as u32, ..self.wrote() }.go_on(),
                Some(e) => self.fail(e@),
            },
            (LoadPhase::Deleting, DbEvent::Executed { error }) => match error {
                None => LoadState { deletes: (self.deletes + 1) as u32, ..self.wrote() }.go_on(),
                Some(e) => self.fail(e@),
            },
            (LoadPhase::Reading, DbEvent::Queried { result }) => match result {
                Ok(_) => LoadState {
                    reads: (self.reads + 1) as u32,
                    step: (self.step + 1) as u32,
                    ..self
                }.go_on(),
                Err(e) => self.fail(e@),
            },
            _ => (self, Deed::Unexpected),
        }
    }

    /// Whether an operation is under way.
    pub open spec fn is_operating(self) -> bool {
        self.phase == LoadPhase::Inserting || self.phase == LoadPhase::Updating || self.phase
            == LoadPhase::Deleting || self.phase == LoadPhase::Reading
    }

    /// What holds of every state: each operation was counted once.
    pub open spec fn wf(self) -> bool {
        &&& self.boot.wf()
        &&& self.reads + self.inserts + self.updates + self.deletes == self.step
        &&& self.step <= self.ops
        &&& self.sum_seq <= self.step * 0xffff_ffff
        &&& self.is_operating() || self.phase == LoadPhase::Reopening || self.phase
            == LoadPhase::SettingUpAgain ==> self.step < self.ops
        &&& self.phase == LoadPhase::Through ==> self.step == self.ops
        &&& self.live.len() <= self.step + if self.phase == LoadPhase::Inserting || self.phase
            == LoadPhase::Over {
            1int
        } else {
            0
        }
    }

    /// What the process reports.
    pub open spec fn claim(self) -> ClaimState {
        ClaimState {
            worker: self.worker,
            ops: self.ops as u64,
            reads: self.reads as u64,
            writes: self.writes() as u64,
            inserts: self.inserts as u64,
            updates: self.updates as u64,
            deletes: self.deletes as u64,
            sum_seq: self.sum_seq,
            sample: self.sample,
            last: self.last,
        }
    }
}

/// A load process.
#[derive(Debug)]
pub struct Load {
    worker: u64,
    ops: u32,
    rng: Rng,
    live: Vec<String>,
    step: u32,
    reads: u32,
    inserts: u32,
    updates: u32,
    deletes: u32,
    sum_seq: u64,
    sample: String,
    last: String,
    recorded: String,
    boot: Boot,
    phase: LoadPhase,
}

impl View for Load {
    type V = LoadState;

    closed spec fn view(&self) -> LoadState {
        LoadState {
            worker: self.worker,
            ops: self.ops,
            rng: self.rng.0,
            live: texts(self.live@),
            step: self.step,
            reads: self.reads,
            inserts: self.inserts,
            updates: self.updates,
            deletes: self.deletes,
            sum_seq: self.sum_seq,
            sample: self.sample@,
            last: self.last@,
            recorded: self.recorded@,
            boot: self.boot@,
            phase: self.phase,
        }
    }
}

/// The process before anything was done; the connection is to be opened.
pub fn run_worker(worker: u64, ops: u32, seed: u64) -> (r: (Load, DbAction))
    ensures
        r.0@ == LoadState::begin(worker, ops, seed),
        r.1@ == Deed::Open,
        r.0@.wf(),
{
    let (boot, _) = Boot::begin();
    let load = Load {
        worker,
        ops,
        rng: Rng(seed | 1),
        live: Vec::new(),
        step: 0,
        reads: 0,
        inserts: 0,
        updates: 0,
        deletes: 0,
        sum_seq: 0,
        sample: String::new(),
        last: String::new(),
        recorded: String::new(),
        boot,
        phase: LoadPhase::Opening,
    };
    assert(load@.live == Seq::<Seq<char>>::empty());
    assert(load@.sample == Seq::<char>::empty());
    assert(load@.last == Seq::<char>::empty());
    assert(load@.recorded == Seq::<char>::empty());
    (load, DbAction::Open)
}

impl Load {
    fn fail(&mut self, error: String) -> (a: DbAction)
        ensures
            final(self)@ == old(self)@.fail(error@).0,
            a@ == old(self)@.fail(error@).1,
    {
        self.phase = LoadPhase::Over;
        DbAction::Failed { error }
    }

    fn draw(&mut self) -> (a: DbAction)
        requires
            old(self)@.live.len() <= u32::MAX,
        ensures
            final(self)@ == old(self)@.draw().0,
            a@ == old(self)@.draw().1,
    {
        let write = self.rng.below(2) == 0;
        if !write {
            let which = self.rng.below(4);
            self.phase = LoadPhase::Reading;
            return DbAction::Query { sql: read_query(self.worker, which) };
        }
        let kind = self.rng.below(3);
        if kind == 0 || self.live.len() == 0 {
            let name = row_name_of(self.worker, self.step);
            let sql = insert_script(self.worker, self.step, name.as_str());
            self.live.push(copy_text(name.as_str()));
            self.recorded = name;
            self.phase = LoadPhase::Inserting;
            assert(self@.live =~= old(self)@.live.push(row_name(self.worker, self.step)));
            DbAction::Exec { sql }
        } else if kind == 1 {
            let count: u32 = self.live.len() as u32;
            let at: u32 = self.rng.below(count);
            let name = self.live[at as usize].clone();
            assert(name@ == old(self)@.live[at as int]);
            let sql = update_script(self.worker, self.step, name.as_str());
            self.recorded = name;
            self.phase = LoadPhase::Updating;
            DbAction::Exec { sql }
        } else {
            let ghost before = self.live@;
            let name = self.live.pop().unwrap();
            assert(texts(before).last() == name@);
            assert(texts(self.live@) =~= texts(before).drop_last());
            let sql = delete_script(self.worker, self.step, name.as_str());
            self.recorded = name;
            self.phase = LoadPhase::Deleting;
            DbAction::Exec { sql }
        }
    }

    fn go_on(&mut self) -> (a: DbAction)
        requires
            old(self)@.live.len() <= u32::MAX,
            old(self)@.reads + old(self)@.writes() == old(self)@.step,
        ensures
            final(self)@ == old(self)@.go_on().0,
            a@ == old(self)@.go_on().1,
    {
        if self.step >= self.ops {
            self.phase = LoadPhase::Through;
            if self.inserts + self.updates + self.deletes == 0 {
                let mut error = copy_text("worker ");
                error.append(u64_text(self.worker).as_str());
                error.append(" performed no writes");
                DbAction::Failed { error }
            } else {
                DbAction::Done
            }
        } else if self.step > 0 && self.step % REOPEN_EVERY == 0 {
            self.phase = LoadPhase::Reopening;
            DbAction::Open
        } else {
            self.draw()
        }
    }

    fn wrote(&mut self)
        requires
            old(self)@.wf(),
            old(self)@.is_operating(),
        ensures
            final(self)@ == old(self)@.wrote(),
    {
        if self.sample.as_str().unicode_len() == 0 {
            self.sample = copy_text(self.recorded.as_str());
        }
        self.last = copy_text(self.recorded.as_str());
        self.sum_seq = self.sum_seq + self.step as u64;
        self.step = self.step + 1;
    }

    /// Takes an event and says what to do.
    pub fn step(&mut self, event: DbEvent) -> (a: DbAction)
        requires
            old(self)@.wf(),
        ensures
            final(self)@ == old(self)@.step(event).0,
            a@ == old(self)@.step(event).1,
            final(self)@.wf(),
    {
        match (self.phase, event) {
            (LoadPhase::Opening, DbEvent::Opened { error }) => match error {
                None => {
                    self.phase = LoadPhase::SettingUp;
                    DbAction::Exec { sql: copy_text(SETUP) }
                },
                Some(e) => self.fail(e),
            },
            (LoadPhase::SettingUp, DbEvent::Executed { error }) => match error {
                None => {
                    let (boot, action) = Boot::begin();
                    self.boot = boot;
                    self.phase = LoadPhase::Booting;
                    action
                },
                Some(e) => self.fail(e),
            },
            (LoadPhase::Booting, event) => {
                let action = self.boot.step(event);
                match action {
                    DbAction::Done => self.go_on(),
                    DbAction::Failed { error } => self.fail(error),
                    _ => action,
                }
            },
            (LoadPhase::Reopening, DbEvent::Opened { error }) => match error {
                None => {
                    self.phase = LoadPhase::SettingUpAgain;
                    DbAction::Exec { sql: copy_text(SETUP) }
                },
                Some(e) => self.fail(e),
            },
            (LoadPhase::SettingUpAgain, DbEvent::Executed { error }) => match error {
                None => self.draw(),
                Some(e) => self.fail(e),
            },
            (LoadPhase::Inserting, DbEvent::Executed { error }) => match error {
                None => {
                    self.wrote();
                    self.inserts = self.inserts + 1;
                    self.go_on()
                },
                Some(e) => self.fail(e),
            },
            (LoadPhase::Updating, DbEvent::Executed { error }) => match error {
                None => {
                    self.wrote();
                    self.updates = self.updates + 1;
                    self.go_on()
                },
                Some(e) => self.fail(e),
            },
            (LoadPhase::Deleting, DbEvent::Executed { error }) => match error {
                None => {
                    self.wrote();
                    self.deletes = self.deletes + 1;
                    self.go_on()
                },
                Some(e) => self.fail(e),
            },
            (LoadPhase::Reading, DbEvent::Queried { result }) => match result {
                Ok(_) => {
                    self.reads = self.reads + 1;
                    self.step = self.step + 1;
                    self.go_on()
                },
                Err(e) => self.fail(e),
            },
            _ => DbAction::Unexpected,
        }
    }

    /// Whether all operations were done; there is something to report then.
    pub fn is_through(&self) -> (r: bool)
        ensures
            r == (self@.phase == LoadPhase::Through),
    {
        matches!(self.phase, LoadPhase::Through)
    }

    /// The line in which the process reports, after so many milliseconds.
    pub fn report(&self, ms: u64) -> (line: String)
        requires
            self@.wf(),
        ensures
            line@ == report_text(
                self@.claim(),
                self@.step as u64,
                self@.boot.applied as u64,
                ms,
            ),
    {
        let writes: u32 = self.inserts + self.updates + self.deletes;
        let claim = Claim {
            worker: self.worker,
            ops: self.ops as u64,
            reads: self.reads as u64,
            writes: writes as u64,
            inserts: self.inserts as u64,
            updates: self.updates as u64,
            deletes: self.deletes as u64,
            sum_seq: self.sum_seq,
            sample: copy_text(self.sample.as_str()),
            last: copy_text(self.last.as_str()),
        };
        report(&claim, self.step as u64, self.boot.applied() as u64, ms)
    }
}

// ------------------------------------------------------------------- laws

/// The state of a load process after some events.
pub open spec fn load_after(worker: u64, ops: u32, seed: u64, events: Seq<DbEvent>) -> LoadState
    decreases events.len(),
{
    if events.len() == 0 {
        LoadState::begin(worker, ops, seed)
    } else {
        load_after(worker, ops, seed, events.drop_last()).step(events.last()).0
    }
}

/// Whether none of the names in use holds whitespace.
pub open spec fn names_are_tight(s: LoadState) -> bool {
    &&& forall|i: int| 0 <= i < s.live.len() ==> is_tight(#[trigger] s.live[i])
    &&& is_tight(s.recorded)
    &&& is_tight(s.sample)
    &&& is_tight(s.last)
}

proof fn a_row_name_is_tight(worker: u64, step: u32)
    ensures
        is_tight(row_name(worker, step)),
        row_name(worker, step).len() > 0,
{
    reveal_strlit("w");
    reveal_strlit("-s");
    decimal_is_digits(worker as nat);
    decimal_is_digits(step as nat);
    let a = decimal(worker as nat);
    let b = decimal(step as nat);
    let name = row_name(worker, step);
    assert forall|j: int| 0 <= j < name.len() implies !is_space(#[trigger] name[j]) by {
        if j == 0 {
        } else if j < 1 + a.len() {
            assert(name[j] == a[j - 1]);
            assert(is_digit(a[j - 1]));
        } else if j < 3 + a.len() {
            assert(name[j] == "-s"@[j - 1 - a.len()]);
        } else {
            assert(name[j] == b[j - 3 - a.len()]);
            assert(is_digit(b[j - 3 - a.len()]));
        }
    }
}

proof fn drawing_keeps_names_tight(s: LoadState)
    requires
        names_are_tight(s),
    ensures
        names_are_tight(s.draw().0),
{
    a_row_name_is_tight(s.worker, s.step);
}

proof fn going_on_keeps_names_tight(s: LoadState)
    requires
        names_are_tight(s),
    ensures
        names_are_tight(s.go_on().0),
{
    drawing_keeps_names_tight(s);
}

proof fn a_step_keeps_names_tight(s: LoadState, event: DbEvent)
    requires
        names_are_tight(s),
    ensures
        names_are_tight(s.step(event).0),
{
    drawing_keeps_names_tight(s);
    going_on_keeps_names_tight(LoadState { boot: s.boot.step(event).0, ..s });
    going_on_keeps_names_tight(LoadState { inserts: (s.inserts + 1) as u32, ..s.wrote() });
    going_on_keeps_names_tight(LoadState { updates: (s.updates + 1) as u32, ..s.wrote() });
    going_on_keeps_names_tight(LoadState { deletes: (s.deletes + 1) as u32, ..s.wrote() });
    going_on_keeps_names_tight(
        LoadState { reads: (s.reads + 1) as u32, step: (s.step + 1) as u32, ..s },
    );
}

/// Whatever happens, each operation is counted once, as a read or as one kind
/// of write, and there are never more than were asked for.
pub proof fn every_operation_is_counted_once(
    worker: u64,
    ops: u32,
    seed: u64,
    events: Seq<DbEvent>,
)
    ensures
        ({
            let s = load_after(worker, ops, seed, events);
            &&& s.wf()
            &&& s.worker == worker
            &&& s.ops == ops
            &&& s.reads + s.writes() == s.step
            &&& s.phase == LoadPhase::Through ==> s.reads + s.writes() == ops
        }),
    decreases events.len(),
{
    if events.len() > 0 {
        every_operation_is_counted_once(worker, ops, seed, events.drop_last());
    }
}

/// The random numbers of a load process never run dry.
pub proof fn the_numbers_do_not_run_dry(worker: u64, ops: u32, seed: u64, events: Seq<DbEvent>)
    ensures
        load_after(worker, ops, seed, events).rng != 0,
    decreases events.len(),
{
    if events.len() == 0 {
        an_odd_seed_is_not_zero(seed);
    } else {
        the_numbers_do_not_run_dry(worker, ops, seed, events.drop_last());
        let x = load_after(worker, ops, seed, events.drop_last()).rng;
        numbers_stay_above_zero(x);
        numbers_stay_above_zero(xorshift(x));
        numbers_stay_above_zero(xorshift(xorshift(x)));
    }
}

proof fn names_are_always_tight(worker: u64, ops: u32, seed: u64, events: Seq<DbEvent>)
    ensures
        names_are_tight(load_after(worker, ops, seed, events)),
    decreases events.len(),
{
    if events.len() > 0 {
        names_are_always_tight(worker, ops, seed, events.drop_last());
        a_step_keeps_names_tight(
            load_after(worker, ops, seed, events.drop_last()),
            events.last(),
        );
    }
}

/// The report of a process that is through says what the process did, and is
/// read as it was said.
pub proof fn a_finished_process_is_believed(
    worker: u64,
    ops: u32,
    seed: u64,
    events: Seq<DbEvent>,
    ms: u64,
)
    requires
        load_after(worker, ops, seed, events).phase == LoadPhase::Through,
    ensures
        ({
            let s = load_after(worker, ops, seed, events);
            claimed(report_text(s.claim(), s.step as u64, s.boot.applied as u64, ms)) == Ok::<
                ClaimState,
                Seq<char>,
            >(s.claim())
        }),
{
    let s = load_after(worker, ops, seed, events);
    every_operation_is_counted_once(worker, ops, seed, events);
    names_are_always_tight(worker, ops, seed, events);
    a_report_reads_back(s.claim(), s.step as u64, s.boot.applied as u64, ms);
}

} // verus!
