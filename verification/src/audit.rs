//! The check after a load test: what the processes say that they wrote must be
//! in the file.
use std::collections::BTreeMap;

use vstd::prelude::*;
use vstd::utf8::encode_utf8;

use crate::claim::{Claim, ClaimState};
use crate::number::{
    decimal, decimal_is_digits, decimal_reads_back, is_digit, number_error, number_error_text,
    parse_u64, u64_text, unsigned_value, NumberError,
};
use crate::text::{
    begins_with, bytes_begin_with, copy_text, index_of, index_of_is_first, lines, lines_of,
    same_text, split, split_of, texts, trim, trimmed,
};

verus! {

/// How a SQLite file begins.
pub const SQLITE_HEADER: &'static str = "SQLite format 3";

/// How a stub begins.
pub const STUB_HEADER: &'static str = "SQLITEBROKER1\n";

pub const INTEGRITY_SQL: &'static str = "PRAGMA integrity_check;";

pub const VERSIONS_SQL: &'static str =
    "SELECT version || ':' || name FROM schema_migration ORDER BY version;";

pub const SEEN_SQL: &'static str =
    "SELECT count(*) FROM pragma_table_info('item') WHERE name = 'seen';";

pub const EVENTS_SQL: &'static str =
    "SELECT worker, count(*), coalesce(sum(seq), 0) FROM event GROUP BY worker ORDER BY worker;";

/// The column at a position; one that is missing is empty.
pub open spec fn column(columns: Seq<Seq<char>>, i: int) -> Seq<char> {
    if i < columns.len() {
        columns[i]
    } else {
        seq![]
    }
}

fn column_of(columns: &Vec<String>, i: usize) -> (r: String)
    ensures
        r@ == column(texts(columns@), i as int),
{
    if i < columns.len() {
        columns[i].clone()
    } else {
        String::new()
    }
}

/// What is said of a line that is no row of events.
pub open spec fn bad_row(line: Seq<char>, e: NumberError) -> Seq<char> {
    "event row "@ + line + ": "@ + number_error_text(e)
}

/// A column of a row of events.
pub open spec fn event_number(line: Seq<char>, i: int) -> Result<u64, Seq<char>> {
    match unsigned_value(column(split(line, '|'), i), u64::MAX as nat) {
        Ok(n) => Ok(n as u64),
        Err(e) => Err(bad_row(line, e)),
    }
}

/// A row of events: the process, how many it wrote, and their sum.
pub open spec fn event_row(line: Seq<char>) -> Result<(u64, u64, u64), Seq<char>> {
    match event_number(line, 0) {
        Err(why) => Err(why),
        Ok(worker) => match event_number(line, 1) {
            Err(why) => Err(why),
            Ok(count) => match event_number(line, 2) {
                Err(why) => Err(why),
                Ok(sum) => Ok((worker, count, sum)),
            },
        },
    }
}

/// What the file says that the processes wrote, added to what is known.
pub open spec fn events_from(known: Map<u64, (u64, u64)>, rows: Seq<Seq<char>>) -> Result<
    Map<u64, (u64, u64)>,
    Seq<char>,
>
    decreases rows.len(),
{
    if rows.len() == 0 {
        Ok(known)
    } else {
        match event_row(rows[0]) {
            Ok((worker, count, sum)) => events_from(
                known.insert(worker, (count, sum)),
                rows.drop_first(),
            ),
            Err(why) => Err(why),
        }
    }
}

fn number_at(line: &str, columns: &Vec<String>, i: usize) -> (r: Result<u64, String>)
    requires
        texts(columns@) == split(line@, '|'),
    ensures
        match r {
            Ok(n) => event_number(line@, i as int) == Ok::<u64, Seq<char>>(n),
            Err(why) => event_number(line@, i as int) == Err::<u64, Seq<char>>(why@),
        },
{
    match parse_u64(column_of(columns, i).as_str()) {
        Ok(n) => Ok(n),
        Err(e) => {
            let mut why = copy_text("event row ");
            why.append(line);
            why.append(": ");
            why.append(number_error(e).as_str());
            Err(why)
        },
    }
}

fn row_of(line: &str) -> (r: Result<(u64, u64, u64), String>)
    ensures
        match r {
            Ok(row) => event_row(line@) == Ok::<(u64, u64, u64), Seq<char>>(row),
            Err(why) => event_row(line@) == Err::<(u64, u64, u64), Seq<char>>(why@),
        },
{
    let columns = split_of(line, '|');
    let worker: u64 = match number_at(line, &columns, 0) {
        Ok(n) => n,
        Err(why) => {
            return Err(why);
        },
    };
    let count: u64 = match number_at(line, &columns, 1) {
        Ok(n) => n,
        Err(why) => {
            return Err(why);
        },
    };
    let sum: u64 = match number_at(line, &columns, 2) {
        Ok(n) => n,
        Err(why) => {
            return Err(why);
        },
    };
    Ok((worker, count, sum))
}

/// Reads what the file says that the processes wrote.
pub fn read_events(text: &str) -> (r: Result<BTreeMap<u64, (u64, u64)>, String>)
    ensures
        match r {
            Ok(table) => events_from(Map::empty(), lines(text@)) == Ok::<
                Map<u64, (u64, u64)>,
                Seq<char>,
            >(table@),
            Err(why) => events_from(Map::empty(), lines(text@)) == Err::<
                Map<u64, (u64, u64)>,
                Seq<char>,
            >(why@),
        },
{
    broadcast use vstd::std_specs::btree::group_btree_axioms;

    let rows = lines_of(text);
    let mut table: BTreeMap<u64, (u64, u64)> = BTreeMap::new();
    let mut i: usize = 0;
    proof {
        assert(texts(rows@).skip(0) == lines(text@));
    }
    while i < rows.len()
        invariant
            i <= rows.len(),
            texts(rows@) == lines(text@),
            events_from(table@, texts(rows@).skip(i as int)) == events_from(Map::empty(), lines(text@)),
        decreases rows.len() - i,
    {
        proof {
            assert(texts(rows@).skip(i as int)[0] == rows@[i as int]@);
            assert(texts(rows@).skip(i as int).drop_first() == texts(rows@).skip(i + 1));
        }
        match row_of(rows[i].as_str()) {
            Ok((worker, count, sum)) => {
                table.insert(worker, (count, sum));
            },
            Err(why) => {
                return Err(why);
            },
        }
        i = i + 1;
    }
    Ok(table)
}

// ------------------------------------------------------------------ audit

/// What the audit waits for.
#[derive(Debug, Clone, Copy, PartialEq, Eq, Structural)]
pub enum AuditPhase {
    /// The storage file is being read.
    Storage,
    /// The stub is being read.
    Stub,
    /// The file is being checked.
    Integrity,
    /// The migrations are being listed.
    Versions,
    /// The column that a migration added is being looked for.
    Seen,
    /// The events are being counted.
    Events,
    /// The first row that the process at hand wrote is being looked for.
    Sample,
    /// The last row that it wrote is being looked for.
    Last,
    /// Its rows are being counted.
    Balance,
    Over,
}

/// What the audit found.
#[derive(Debug)]
#[allow(inconsistent_fields)]
pub enum AuditEvent {
    /// A file was read, or why not.
    File { result: Result<Vec<u8>, String> },
    /// A question to the file was answered, or why not.
    Answer { result: Result<String, String> },
}

/// What the audit does next.
#[derive(Debug)]
pub enum AuditAction {
    ReadStorage,
    ReadStub,
    Ask { sql: String },
    /// All is in the file.
    Passed,
    Failed { error: String },
    /// The event does not belong here.
    Unexpected,
}

/// What the audit does next.
pub enum AuditDeed {
    ReadStorage,
    ReadStub,
    Ask { sql: Seq<char> },
    Passed,
    Failed { error: Seq<char> },
    Unexpected,
}

impl View for AuditAction {
    type V = AuditDeed;

    open spec fn view(&self) -> AuditDeed {
        match self {
            AuditAction::ReadStorage => AuditDeed::ReadStorage,
            AuditAction::ReadStub => AuditDeed::ReadStub,
            AuditAction::Ask { sql } => AuditDeed::Ask { sql: sql@ },
            AuditAction::Passed => AuditDeed::Passed,
            AuditAction::Failed { error } => AuditDeed::Failed { error: error@ },
            AuditAction::Unexpected => AuditDeed::Unexpected,
        }
    }
}

/// The question whether a process wrote a row.
pub open spec fn token_sql(worker: u64, token: Seq<char>) -> Seq<char> {
    "SELECT count(*) FROM event WHERE worker = "@ + decimal(worker as nat) + " AND token = '"@
        + token + "'"@
}

/// The question how many rows of a process there should be, and are.
pub open spec fn balance_sql(worker: u64) -> Seq<char> {
    let w = decimal(worker as nat);
    "SELECT (SELECT count(*) FROM event WHERE worker = "@ + w
        + " AND kind = 'insert') - (SELECT count(*) FROM event WHERE worker = "@ + w
        + " AND kind = 'delete'), (SELECT count(*) FROM item WHERE worker = "@ + w + ")"@
}

/// What is said where the file has no writes of a process.
pub open spec fn no_writes(c: ClaimState) -> Seq<char> {
    "worker "@ + decimal(c.worker as nat) + " reported "@ + decimal(c.writes as nat)
        + " writes but the file has none"@
}

/// What is said where the file has other writes of a process.
pub open spec fn other_writes(c: ClaimState, count: u64, sum: u64) -> Seq<char> {
    "worker "@ + decimal(c.worker as nat) + " file has "@ + decimal(count as nat) + " writes sum "@
        + decimal(sum as nat) + ", process reported "@ + decimal(c.writes as nat) + " writes sum "@
        + decimal(c.sum_seq as nat)
}

/// What is said where the file lacks a row of a process.
pub open spec fn missing_token(worker: u64, token: Seq<char>) -> Seq<char> {
    "worker "@ + decimal(worker as nat) + " token "@ + token + " is missing from the file"@
}

/// What is said where the rows of a process are not as many as they should be.
pub open spec fn unbalanced(worker: u64, expected: Seq<char>, actual: Seq<char>) -> Seq<char> {
    "worker "@ + decimal(worker as nat) + " item rows "@ + actual + " but inserts-deletes is "@
        + expected
}

/// What is said of a process whose writes are all in the file.
pub open spec fn matched(c: ClaimState, actual: Seq<char>) -> Seq<char> {
    "audit worker="@ + decimal(c.worker as nat) + " writes="@ + decimal(c.writes as nat)
        + " sum_seq="@ + decimal(c.sum_seq as nat) + " items="@ + actual + " match"@
}

/// The state of the audit.
pub struct AuditState {
    pub claims: Seq<ClaimState>,
    /// What the file says that the processes wrote.
    pub table: Map<u64, (u64, u64)>,
    /// How many processes were checked.
    pub at: int,
    pub phase: AuditPhase,
}

/// A step of the audit: the state, what is said, what comes next.
pub struct AuditStep {
    pub state: AuditState,
    pub said: Seq<Seq<char>>,
    pub deed: AuditDeed,
}

impl AuditState {
    /// The first step.
    pub open spec fn begin(claims: Seq<ClaimState>) -> AuditStep {
        AuditStep {
            state: AuditState { claims, table: Map::empty(), at: 0, phase: AuditPhase::Storage },
            said: seq![],
            deed: AuditDeed::ReadStorage,
        }
    }

    /// Nothing is said, and a question is asked.
    pub open spec fn ask(self, phase: AuditPhase, said: Seq<Seq<char>>, sql: Seq<char>) -> AuditStep {
        AuditStep { state: AuditState { phase, ..self }, said, deed: AuditDeed::Ask { sql } }
    }

    /// The audit fails.
    pub open spec fn fail(self, said: Seq<Seq<char>>, error: Seq<char>) -> AuditStep {
        AuditStep {
            state: AuditState { phase: AuditPhase::Over, ..self },
            said,
            deed: AuditDeed::Failed { error },
        }
    }

    /// The next process is checked, if there is one: the file must hold as many
    /// writes of it as it claims, with the same sum.
    pub open spec fn check(self, said: Seq<Seq<char>>) -> AuditStep {
        if self.at >= self.claims.len() {
            AuditStep {
                state: AuditState { phase: AuditPhase::Over, ..self },
                said,
                deed: AuditDeed::Passed,
            }
        } else {
            let c = self.claims[self.at];
            if !self.table.contains_key(c.worker) {
                self.fail(said, no_writes(c))
            } else if self.table[c.worker] != (c.writes, c.sum_seq) {
                self.fail(
                    said,
                    other_writes(c, self.table[c.worker].0, self.table[c.worker].1),
                )
            } else {
                self.ask(AuditPhase::Sample, said, token_sql(c.worker, c.sample))
            }
        }
    }

    /// What an answer does.
    pub open spec fn answered(self, text: Seq<char>) -> AuditStep {
        let c = self.claims[self.at];
        match self.phase {
            AuditPhase::Integrity => {
                let said = seq!["--- /usr/bin/sqlite3 ---"@, "integrity="@ + trim(text)];
                if trim(text) != "ok"@ {
                    self.fail(said, "integrity check failed: "@ + text)
                } else {
                    self.ask(AuditPhase::Versions, said, VERSIONS_SQL@)
                }
            },
            AuditPhase::Versions => self.ask(
                AuditPhase::Seen,
                seq!["migrations:\n"@ + trim(text)],
                SEEN_SQL@,
            ),
            AuditPhase::Seen => if trim(text) != "1"@ {
                self.fail(seq![], "ALTER column seen missing in the file: "@ + text)
            } else {
                self.ask(AuditPhase::Events, seq![], EVENTS_SQL@)
            },
            AuditPhase::Events => {
                let said = seq!["events:\n"@ + trim(text)];
                match events_from(Map::empty(), lines(text)) {
                    Err(why) => self.fail(said, why),
                    Ok(table) => AuditState { table, ..self }.check(said),
                }
            },
            AuditPhase::Sample => if trim(text) == "0"@ {
                self.fail(seq![], missing_token(c.worker, c.sample))
            } else {
                self.ask(AuditPhase::Last, seq![], token_sql(c.worker, c.last))
            },
            AuditPhase::Last => if trim(text) == "0"@ {
                self.fail(seq![], missing_token(c.worker, c.last))
            } else {
                self.ask(AuditPhase::Balance, seq![], balance_sql(c.worker))
            },
            AuditPhase::Balance => {
                let columns = split(trim(text), '|');
                let expected = column(columns, 0);
                let actual = column(columns, 1);
                if expected != actual {
                    self.fail(seq![], unbalanced(c.worker, expected, actual))
                } else {
                    AuditState { at: self.at + 1, ..self }.check(seq![matched(c, actual)])
                }
            },
            _ => self.unexpected(),
        }
    }

    /// The event does not belong here.
    pub open spec fn unexpected(self) -> AuditStep {
        AuditStep { state: self, said: seq![], deed: AuditDeed::Unexpected }
    }

    /// What an event does.
    pub open spec fn step(self, event: AuditEvent) -> AuditStep {
        match event {
            AuditEvent::File { result } => match (self.phase, result) {
                (AuditPhase::Storage, Ok(bytes)) => if begins_with(
                    bytes@,
                    encode_utf8(SQLITE_HEADER@),
                ) {
                    AuditStep {
                        state: AuditState { phase: AuditPhase::Stub, ..self },
                        said: seq![],
                        deed: AuditDeed::ReadStub,
                    }
                } else {
                    self.fail(seq![], "storage is not a SQLite file"@)
                },
                (AuditPhase::Stub, Ok(bytes)) => if begins_with(
                    bytes@,
                    encode_utf8(STUB_HEADER@),
                ) {
                    self.ask(AuditPhase::Integrity, seq![], INTEGRITY_SQL@)
                } else {
                    self.fail(seq![], "replacement path is no longer a stub"@)
                },
                (AuditPhase::Storage, Err(why)) => self.fail(seq![], why@),
                (AuditPhase::Stub, Err(why)) => self.fail(seq![], why@),
                _ => self.unexpected(),
            },
            AuditEvent::Answer { result } => if self.asks() {
                match result {
                    Ok(text) => self.answered(text@),
                    Err(why) => self.fail(seq![], why@),
                }
            } else {
                self.unexpected()
            },
        }
    }

    /// Whether a question was asked.
    pub open spec fn asks(self) -> bool {
        self.phase != AuditPhase::Storage && self.phase != AuditPhase::Stub && self.phase
            != AuditPhase::Over
    }

    /// What holds of every state: the writes of the processes checked so far,
    /// and of the one at hand, are those of the file.
    pub open spec fn wf(self) -> bool {
        &&& 0 <= self.at <= self.claims.len()
        &&& self.is_checking() ==> self.at < self.claims.len() && agrees(
            self.table,
            self.claims[self.at],
        )
        &&& forall|i: int| 0 <= i < self.at ==> agrees(self.table, #[trigger] self.claims[i])
        &&& !self.is_checking() && self.phase != AuditPhase::Over ==> self.at == 0
    }

    /// Whether a process is being checked.
    pub open spec fn is_checking(self) -> bool {
        self.phase == AuditPhase::Sample || self.phase == AuditPhase::Last || self.phase
            == AuditPhase::Balance
    }
}

/// Whether the file holds the writes that a process claims.
pub open spec fn agrees(table: Map<u64, (u64, u64)>, c: ClaimState) -> bool {
    table.contains_key(c.worker) && table[c.worker] == (c.writes, c.sum_seq)
}

/// What the claims say.
pub open spec fn claim_views(claims: Seq<Claim>) -> Seq<ClaimState> {
    claims.map_values(|c: Claim| c@)
}

/// The audit of a load test.
#[derive(Debug)]
pub struct Audit {
    claims: Vec<Claim>,
    table: BTreeMap<u64, (u64, u64)>,
    at: usize,
    phase: AuditPhase,
}

impl View for Audit {
    type V = AuditState;

    closed spec fn view(&self) -> AuditState {
        AuditState {
            claims: claim_views(self.claims@),
            table: self.table@,
            at: self.at as int,
            phase: self.phase,
        }
    }
}

/// What is said in a step of the audit, and what comes next.
#[derive(Debug)]
pub struct AuditReply {
    pub said: Vec<String>,
    pub action: AuditAction,
}

/// Whether the reply is that of a step.
pub open spec fn is_reply(r: AuditReply, step: AuditStep) -> bool {
    texts(r.said@) == step.said && r.action@ == step.deed
}

fn one(line: String) -> (v: Vec<String>)
    ensures
        texts(v@) == seq![line@],
{
    let mut v: Vec<String> = Vec::new();
    v.push(line);
    assert(texts(v@) == seq![line@]);
    v
}

fn none() -> (v: Vec<String>)
    ensures
        texts(v@) == Seq::<Seq<char>>::empty(),
{
    let v: Vec<String> = Vec::new();
    assert(texts(v@) == Seq::<Seq<char>>::empty());
    v
}

fn labelled(label: &str, text: &str) -> (out: String)
    ensures
        out@ == label@ + text@,
{
    let mut out = copy_text(label);
    out.append(text);
    out
}

/// Begins the audit of a load test.
pub fn audit(claims: Vec<Claim>) -> (r: (Audit, AuditReply))
    ensures
        r.0@ == AuditState::begin(claim_views(claims@)).state,
        is_reply(r.1, AuditState::begin(claim_views(claims@))),
        r.0@.wf(),
{
    broadcast use vstd::std_specs::btree::group_btree_axioms;

    (
        Audit { claims, table: BTreeMap::new(), at: 0, phase: AuditPhase::Storage },
        AuditReply { said: none(), action: AuditAction::ReadStorage },
    )
}

impl Audit {
    fn ask(&mut self, phase: AuditPhase, said: Vec<String>, sql: String) -> (r: AuditReply)
        ensures
            final(self)@ == old(self)@.ask(phase, texts(said@), sql@).state,
            is_reply(r, old(self)@.ask(phase, texts(said@), sql@)),
    {
        self.phase = phase;
        AuditReply { said, action: AuditAction::Ask { sql } }
    }

    fn fail(&mut self, said: Vec<String>, error: String) -> (r: AuditReply)
        ensures
            final(self)@ == old(self)@.fail(texts(said@), error@).state,
            is_reply(r, old(self)@.fail(texts(said@), error@)),
    {
        self.phase = AuditPhase::Over;
        AuditReply { said, action: AuditAction::Failed { error } }
    }

    fn ask_token(&mut self, phase: AuditPhase, said: Vec<String>, worker: u64, token: &str) -> (r:
        AuditReply)
        ensures
            final(self)@ == old(self)@.ask(phase, texts(said@), token_sql(worker, token@)).state,
            is_reply(r, old(self)@.ask(phase, texts(said@), token_sql(worker, token@))),
    {
        let mut sql = copy_text("SELECT count(*) FROM event WHERE worker = ");
        sql.append(u64_text(worker).as_str());
        sql.append(" AND token = '");
        sql.append(token);
        sql.append("'");
        self.ask(phase, said, sql)
    }

    fn missing(&mut self, worker: u64, token: &str) -> (r: AuditReply)
        ensures
            final(self)@ == old(self)@.fail(seq![], missing_token(worker, token@)).state,
            is_reply(r, old(self)@.fail(seq![], missing_token(worker, token@))),
    {
        let mut error = copy_text("worker ");
        error.append(u64_text(worker).as_str());
        error.append(" token ");
        error.append(token);
        error.append(" is missing from the file");
        self.fail(none(), error)
    }

    fn check(&mut self, said: Vec<String>) -> (r: AuditReply)
        ensures
            final(self)@ == old(self)@.check(texts(said@)).state,
            is_reply(r, old(self)@.check(texts(said@))),
    {
        broadcast use vstd::std_specs::btree::group_btree_axioms;

        if self.at >= self.claims.len() {
            self.phase = AuditPhase::Over;
            return AuditReply { said, action: AuditAction::Passed };
        }
        let worker: u64 = self.claims[self.at].worker;
        let writes: u64 = self.claims[self.at].writes;
        let sum_seq: u64 = self.claims[self.at].sum_seq;
        let sample = self.claims[self.at].sample.clone();
        let found: Option<(u64, u64)> = match self.table.get(&worker) {
            Some(entry) => Some(*entry),
            None => None,
        };
        match found {
            None => {
                let mut error = copy_text("worker ");
                error.append(u64_text(worker).as_str());
                error.append(" reported ");
                error.append(u64_text(writes).as_str());
                error.append(" writes but the file has none");
                self.fail(said, error)
            },
            Some((count, sum)) => {
                if count != writes || sum != sum_seq {
                    let mut error = copy_text("worker ");
                    error.append(u64_text(worker).as_str());
                    error.append(" file has ");
                    error.append(u64_text(count).as_str());
                    error.append(" writes sum ");
                    error.append(u64_text(sum).as_str());
                    error.append(", process reported ");
                    error.append(u64_text(writes).as_str());
                    error.append(" writes sum ");
                    error.append(u64_text(sum_seq).as_str());
                    self.fail(said, error)
                } else {
                    self.ask_token(AuditPhase::Sample, said, worker, sample.as_str())
                }
            },
        }
    }

    fn balanced(&mut self, text: &str) -> (r: AuditReply)
        requires
            old(self)@.wf(),
            old(self)@.phase == AuditPhase::Balance,
        ensures
            final(self)@ == old(self)@.answered(text@).state,
            is_reply(r, old(self)@.answered(text@)),
    {
        let worker: u64 = self.claims[self.at].worker;
        let writes: u64 = self.claims[self.at].writes;
        let sum_seq: u64 = self.claims[self.at].sum_seq;
        let columns = split_of(trimmed(text).as_str(), '|');
        let expected = column_of(&columns, 0);
        let actual = column_of(&columns, 1);
        if !same_text(expected.as_str(), actual.as_str()) {
            let mut error = copy_text("worker ");
            error.append(u64_text(worker).as_str());
            error.append(" item rows ");
            error.append(actual.as_str());
            error.append(" but inserts-deletes is ");
            error.append(expected.as_str());
            return self.fail(none(), error);
        }
        let mut line = copy_text("audit worker=");
        line.append(u64_text(worker).as_str());
        line.append(" writes=");
        line.append(u64_text(writes).as_str());
        line.append(" sum_seq=");
        line.append(u64_text(sum_seq).as_str());
        line.append(" items=");
        line.append(actual.as_str());
        line.append(" match");
        assert(self.at < self.claims.len());
        self.at = self.at + 1;
        self.check(one(line))
    }

    fn answer(&mut self, text: &str) -> (r: AuditReply)
        requires
            old(self)@.wf(),
            old(self)@.asks(),
        ensures
            final(self)@ == old(self)@.answered(text@).state,
            is_reply(r, old(self)@.answered(text@)),
    {
        let clean = trimmed(text);
        match self.phase {
            AuditPhase::Integrity => {
                let mut said = one(copy_text("--- /usr/bin/sqlite3 ---"));
                let line = labelled("integrity=", clean.as_str());
                let ghost before = texts(said@);
                said.push(line);
                assert(texts(said@) == before.push(line@));
                assert(texts(said@) == seq![
                    "--- /usr/bin/sqlite3 ---"@,
                    "integrity="@ + trim(text@),
                ]);
                if !same_text(clean.as_str(), "ok") {
                    self.fail(said, labelled("integrity check failed: ", text))
                } else {
                    self.ask(AuditPhase::Versions, said, copy_text(VERSIONS_SQL))
                }
            },
            AuditPhase::Versions => self.ask(
                AuditPhase::Seen,
                one(labelled("migrations:\n", clean.as_str())),
                copy_text(SEEN_SQL),
            ),
            AuditPhase::Seen => {
                if !same_text(clean.as_str(), "1") {
                    self.fail(none(), labelled("ALTER column seen missing in the file: ", text))
                } else {
                    self.ask(AuditPhase::Events, none(), copy_text(EVENTS_SQL))
                }
            },
            AuditPhase::Events => {
                let said = one(labelled("events:\n", clean.as_str()));
                match read_events(text) {
                    Err(why) => self.fail(said, why),
                    Ok(table) => {
                        self.table = table;
                        self.check(said)
                    },
                }
            },
            AuditPhase::Sample => {
                let worker: u64 = self.claims[self.at].worker;
                if same_text(clean.as_str(), "0") {
                    let token = self.claims[self.at].sample.clone();
                    self.missing(worker, token.as_str())
                } else {
                    let token = self.claims[self.at].last.clone();
                    self.ask_token(AuditPhase::Last, none(), worker, token.as_str())
                }
            },
            AuditPhase::Last => {
                let worker: u64 = self.claims[self.at].worker;
                if same_text(clean.as_str(), "0") {
                    let token = self.claims[self.at].last.clone();
                    self.missing(worker, token.as_str())
                } else {
                    let w = u64_text(worker);
                    let mut sql = copy_text(
                        "SELECT (SELECT count(*) FROM event WHERE worker = ",
                    );
                    sql.append(w.as_str());
                    sql.append(
                        " AND kind = 'insert') - (SELECT count(*) FROM event WHERE worker = ",
                    );
                    sql.append(w.as_str());
                    sql.append(
                        " AND kind = 'delete'), (SELECT count(*) FROM item WHERE worker = ",
                    );
                    sql.append(w.as_str());
                    sql.append(")");
                    self.ask(AuditPhase::Balance, none(), sql)
                }
            },
            _ => self.balanced(text),
        }
    }

    /// Takes an event and says what comes next.
    pub fn step(&mut self, event: AuditEvent) -> (r: AuditReply)
        requires
            old(self)@.wf(),
        ensures
            final(self)@ == old(self)@.step(event).state,
            is_reply(r, old(self)@.step(event)),
            final(self)@.wf(),
    {
        proof {
            step_keeps_wf(self@, event);
        }
        match event {
            AuditEvent::File { result } => match (self.phase, result) {
                (AuditPhase::Storage, Ok(bytes)) => {
                    if bytes_begin_with(bytes.as_slice(), SQLITE_HEADER.as_bytes()) {
                        self.phase = AuditPhase::Stub;
                        AuditReply { said: none(), action: AuditAction::ReadStub }
                    } else {
                        self.fail(none(), copy_text("storage is not a SQLite file"))
                    }
                },
                (AuditPhase::Stub, Ok(bytes)) => {
                    if bytes_begin_with(bytes.as_slice(), STUB_HEADER.as_bytes()) {
                        self.ask(AuditPhase::Integrity, none(), copy_text(INTEGRITY_SQL))
                    } else {
                        self.fail(none(), copy_text("replacement path is no longer a stub"))
                    }
                },
                (AuditPhase::Storage, Err(why)) => self.fail(none(), why),
                (AuditPhase::Stub, Err(why)) => self.fail(none(), why),
                _ => AuditReply { said: none(), action: AuditAction::Unexpected },
            },
            AuditEvent::Answer { result } => {
                match self.phase {
                    AuditPhase::Storage | AuditPhase::Stub | AuditPhase::Over => {
                        return AuditReply { said: none(), action: AuditAction::Unexpected };
                    },
                    _ => {},
                }
                match result {
                    Ok(text) => self.answer(text.as_str()),
                    Err(why) => self.fail(none(), why),
                }
            },
        }
    }
}

proof fn check_keeps_wf(s: AuditState, said: Seq<Seq<char>>)
    requires
        0 <= s.at <= s.claims.len(),
        forall|i: int| 0 <= i < s.at ==> agrees(s.table, #[trigger] s.claims[i]),
    ensures
        s.check(said).state.wf(),
{
}

proof fn step_keeps_wf(s: AuditState, event: AuditEvent)
    requires
        s.wf(),
    ensures
        s.step(event).state.wf(),
{
    if let AuditEvent::Answer { result: Ok(text) } = event {
        if s.phase == AuditPhase::Events {
            if let Ok(table) = events_from(Map::empty(), lines(text@)) {
                check_keeps_wf(AuditState { table, ..s }, seq!["events:\n"@ + trim(text@)]);
            }
        }
        if s.phase == AuditPhase::Balance {
            let actual = column(split(trim(text@), '|'), 1);
            check_keeps_wf(
                AuditState { at: s.at + 1, ..s },
                seq![matched(s.claims[s.at], actual)],
            );
        }
    }
}

/// An audit that passes has found the writes of every process in the file, as
/// many as were claimed and with the claimed sum.
pub proof fn a_passed_audit_agrees_with_every_claim(s: AuditState, event: AuditEvent, i: int)
    requires
        s.wf(),
        s.step(event).deed == AuditDeed::Passed,
        0 <= i < s.claims.len(),
    ensures
        agrees(s.step(event).state.table, s.claims[i]),
{
    step_keeps_wf(s, event);
    let t = s.step(event).state;
    assert(t.at == t.claims.len());
    assert(t.claims[i] == s.claims[i]);
}

/// The last step of an audit after some events.
pub open spec fn audit_after(claims: Seq<ClaimState>, events: Seq<AuditEvent>) -> AuditStep
    decreases events.len(),
{
    if events.len() == 0 {
        AuditState::begin(claims)
    } else {
        audit_after(claims, events.drop_last()).state.step(events.last())
    }
}

/// Whether every event is one that the audit waited for.
pub open spec fn all_awaited(claims: Seq<ClaimState>, events: Seq<AuditEvent>) -> bool
    decreases events.len(),
{
    events.len() > 0 ==> {
        &&& all_awaited(claims, events.drop_last())
        &&& audit_after(claims, events).deed != AuditDeed::Unexpected
    }
}

/// What the audit does before the event at a position: it reads both files,
/// asks four questions of the file, and then three about each claim.
pub open spec fn audit_deed(claims: Seq<ClaimState>, k: int) -> AuditDeed {
    if k == 0 {
        AuditDeed::ReadStorage
    } else if k == 1 {
        AuditDeed::ReadStub
    } else if k == 2 {
        AuditDeed::Ask { sql: "PRAGMA integrity_check;"@ }
    } else if k == 3 {
        AuditDeed::Ask {
            sql: "SELECT version || ':' || name FROM schema_migration ORDER BY version;"@,
        }
    } else if k == 4 {
        AuditDeed::Ask {
            sql: "SELECT count(*) FROM pragma_table_info('item') WHERE name = 'seen';"@,
        }
    } else if k == 5 {
        AuditDeed::Ask {
            sql: "SELECT worker, count(*), coalesce(sum(seq), 0) FROM event GROUP BY worker ORDER BY worker;"@,
        }
    } else {
        let c = claims[(k - 6) / 3];
        let w = decimal(c.worker as nat);
        AuditDeed::Ask {
            sql: if (k - 6) % 3 == 0 {
                "SELECT count(*) FROM event WHERE worker = "@ + w + " AND token = '"@ + c.sample
                    + "'"@
            } else if (k - 6) % 3 == 1 {
                "SELECT count(*) FROM event WHERE worker = "@ + w + " AND token = '"@ + c.last
                    + "'"@
            } else {
                "SELECT (SELECT count(*) FROM event WHERE worker = "@ + w
                    + " AND kind = 'insert') - (SELECT count(*) FROM event WHERE worker = "@ + w
                    + " AND kind = 'delete'), (SELECT count(*) FROM item WHERE worker = "@ + w
                    + ")"@
            },
        }
    }
}

/// Whether an event is the content of a file that begins with a header.
pub open spec fn is_file_with(event: AuditEvent, header: Seq<char>) -> bool {
    event matches AuditEvent::File { result: Ok(bytes) } && begins_with(bytes@, encode_utf8(header))
}

/// The answer that an event is, if it is one.
pub open spec fn answer_in(event: AuditEvent) -> Option<Seq<char>> {
    match event {
        AuditEvent::Answer { result: Ok(text) } => Some(text@),
        _ => None,
    }
}

/// Whether the event at a position is what a file that holds all should give:
/// both files begin as they should, the file is sound and has the column, the
/// events add up to the table, and of each claim both tokens are there and the
/// rows are as many as they should be.
pub open spec fn is_good_event(table: Map<u64, (u64, u64)>, k: int, event: AuditEvent) -> bool {
    if k == 0 {
        is_file_with(event, "SQLite format 3"@)
    } else if k == 1 {
        is_file_with(event, "SQLITEBROKER1\n"@)
    } else {
        answer_in(event) matches Some(text) && if k == 2 {
            trim(text) == "ok"@
        } else if k == 3 {
            true
        } else if k == 4 {
            trim(text) == "1"@
        } else if k == 5 {
            events_from(Map::empty(), lines(text)) == Ok::<Map<u64, (u64, u64)>, Seq<char>>(table)
        } else if (k - 6) % 3 < 2 {
            trim(text) != "0"@
        } else {
            column(split(trim(text), '|'), 0) == column(split(trim(text), '|'), 1)
        }
    }
}

impl AuditState {
    /// How many events lead to this state, in an audit that has not failed.
    spec fn position(self) -> int {
        match self.phase {
            AuditPhase::Storage => 0,
            AuditPhase::Stub => 1,
            AuditPhase::Integrity => 2,
            AuditPhase::Versions => 3,
            AuditPhase::Seen => 4,
            AuditPhase::Events => 5,
            AuditPhase::Sample => 6 + 3 * self.at,
            AuditPhase::Last => 7 + 3 * self.at,
            AuditPhase::Balance => 8 + 3 * self.at,
            AuditPhase::Over => 6 + 3 * self.at,
        }
    }
}

proof fn a_step_goes_on(claims: Seq<ClaimState>, s: AuditState, event: AuditEvent)
    requires
        s.wf(),
        s.claims == claims,
        s.step(event).deed != AuditDeed::Unexpected,
    ensures
        ({
            let t = s.step(event);
            &&& s.phase != AuditPhase::Over
            &&& t.state.wf()
            &&& t.state.claims == claims
            &&& t.deed !is Failed ==> {
                &&& t.state.position() == s.position() + 1
                &&& is_good_event(t.state.table, s.position(), event)
                &&& s.phase != AuditPhase::Events ==> t.state.table == s.table
                &&& if t.state.phase == AuditPhase::Over {
                    t.deed == AuditDeed::Passed && t.state.at == claims.len()
                } else {
                    t.deed == audit_deed(claims, t.state.position())
                }
            }
            &&& t.deed is Failed ==> t.state.phase == AuditPhase::Over
        }),
{
    step_keeps_wf(s, event);
}

proof fn an_audit_goes_on(claims: Seq<ClaimState>, events: Seq<AuditEvent>)
    requires
        all_awaited(claims, events),
    ensures
        ({
            let t = audit_after(claims, events);
            &&& t.state.wf()
            &&& t.state.claims == claims
            &&& t.deed !is Failed ==> {
                &&& t.state.position() == events.len()
                &&& if t.state.phase == AuditPhase::Over {
                    t.deed == AuditDeed::Passed && t.state.at == claims.len()
                } else {
                    t.deed == audit_deed(claims, events.len() as int)
                }
                &&& forall|k: int|
                    0 <= k < events.len() ==> is_good_event(t.state.table, k, #[trigger] events[k])
                &&& forall|k: int|
                    0 <= k < events.len() ==> (#[trigger] audit_after(
                        claims,
                        events.take(k),
                    )).deed == audit_deed(claims, k)
            }
            &&& t.deed is Failed ==> t.state.phase == AuditPhase::Over
        }),
    decreases events.len(),
{
    if events.len() > 0 {
        let before = events.drop_last();
        an_audit_goes_on(claims, before);
        let s = audit_after(claims, before).state;
        let t = audit_after(claims, events);
        a_step_goes_on(claims, s, events.last());
        if t.deed !is Failed {
            assert forall|k: int| 0 <= k < events.len() implies is_good_event(
                t.state.table,
                k,
                #[trigger] events[k],
            ) by {
                if k < before.len() {
                    assert(before[k] == events[k]);
                    assert(is_good_event(s.table, k, before[k]));
                }
            }
            assert forall|k: int| 0 <= k < events.len() implies (#[trigger] audit_after(
                claims,
                events.take(k),
            )).deed == audit_deed(claims, k) by {
                if k < before.len() {
                    assert(before.take(k) == events.take(k));
                    assert(audit_after(claims, before.take(k)).deed == audit_deed(claims, k));
                } else {
                    assert(events.take(k) == before);
                }
            }
        }
    }
}

/// An audit that passes has read both headers, found the file sound and with the
/// column that a migration added, and found of every claim the number of writes,
/// their sum, the first and the last token and as many rows as there should be:
/// each question was asked, in order, and each answer was the right one.
pub proof fn a_passed_audit_found_everything(claims: Seq<ClaimState>, events: Seq<AuditEvent>)
    requires
        all_awaited(claims, events),
        audit_after(claims, events).deed == AuditDeed::Passed,
    ensures
        events.len() == 6 + 3 * claims.len(),
        ({
            let table = audit_after(claims, events).state.table;
            &&& forall|k: int|
                0 <= k < events.len() ==> is_good_event(table, k, #[trigger] events[k])
            &&& forall|i: int| 0 <= i < claims.len() ==> agrees(table, #[trigger] claims[i])
        }),
        forall|k: int|
            0 <= k < events.len() ==> (#[trigger] audit_after(claims, events.take(k))).deed
                == audit_deed(claims, k),
{
    an_audit_goes_on(claims, events);
}

proof fn a_good_step_is_taken(
    claims: Seq<ClaimState>,
    s: AuditState,
    event: AuditEvent,
    table: Map<u64, (u64, u64)>,
)
    requires
        s.wf(),
        s.claims == claims,
        s.phase != AuditPhase::Over,
        is_good_event(table, s.position(), event),
        s.position() > 5 ==> s.table == table,
        forall|i: int| 0 <= i < claims.len() ==> agrees(table, #[trigger] claims[i]),
    ensures
        s.step(event).deed !is Failed,
        s.step(event).deed !is Unexpected,
        s.position() >= 5 ==> s.step(event).state.table == table,
{
    if s.position() == 5 {
        let next = AuditState { table, ..s };
        if claims.len() > 0 {
            assert(agrees(table, claims[0]));
        }
        assert(next.check(seq!["events:\n"@ + trim(answer_in(event)->0)]).deed !is Failed);
    }
    if s.phase == AuditPhase::Balance && s.at + 1 < claims.len() {
        assert(agrees(table, claims[s.at + 1]));
    }
}

proof fn a_good_audit_is_taken(
    claims: Seq<ClaimState>,
    events: Seq<AuditEvent>,
    table: Map<u64, (u64, u64)>,
    k: int,
)
    requires
        0 <= k <= events.len() == 6 + 3 * claims.len(),
        forall|i: int| 0 <= i < events.len() ==> is_good_event(table, i, #[trigger] events[i]),
        forall|i: int| 0 <= i < claims.len() ==> agrees(table, #[trigger] claims[i]),
    ensures
        all_awaited(claims, events.take(k)),
        audit_after(claims, events.take(k)).deed !is Failed,
        k > 5 ==> audit_after(claims, events.take(k)).state.table == table,
    decreases k,
{
    if k > 0 {
        let before = events.take(k - 1);
        a_good_audit_is_taken(claims, events, table, k - 1);
        an_audit_goes_on(claims, before);
        assert(events.take(k).drop_last() == before);
        assert(events.take(k).last() == events[k - 1]);
        let s = audit_after(claims, before).state;
        a_good_step_is_taken(claims, s, events[k - 1], table);
    }
}

/// An audit passes where everything is there: both headers, a sound file with the
/// column, and of every claim the writes, their sum, both tokens and the rows.
pub proof fn an_audit_passes_where_everything_is_there(
    claims: Seq<ClaimState>,
    events: Seq<AuditEvent>,
    table: Map<u64, (u64, u64)>,
)
    requires
        events.len() == 6 + 3 * claims.len(),
        forall|i: int| 0 <= i < events.len() ==> is_good_event(table, i, #[trigger] events[i]),
        forall|i: int| 0 <= i < claims.len() ==> agrees(table, #[trigger] claims[i]),
    ensures
        all_awaited(claims, events),
        audit_after(claims, events).deed == AuditDeed::Passed,
{
    assert(events.take(events.len() as int) == events);
    a_good_audit_is_taken(claims, events, table, events.len() as int);
    an_audit_goes_on(claims, events);
}

/// An audit fails at the first thing that is not there: where the event before
/// was good and this one is not, it is over.
pub proof fn an_audit_fails_at_the_first_fault(claims: Seq<ClaimState>, events: Seq<AuditEvent>)
    requires
        all_awaited(claims, events),
        events.len() > 0,
        !is_good_event(
            audit_after(claims, events).state.table,
            events.len() - 1,
            events.last(),
        ),
    ensures
        audit_after(claims, events).deed is Failed,
{
    an_audit_goes_on(claims, events);
    assert(events[events.len() - 1] == events.last());
}

/// The rows of events become a table: what the last row of a process says is what
/// the file has of it, and a process without a row has nothing.
pub proof fn the_last_row_of_a_process_counts(
    known: Map<u64, (u64, u64)>,
    rows: Seq<Seq<char>>,
    worker: u64,
)
    requires
        events_from(known, rows) is Ok,
    ensures
        forall|i: int| 0 <= i < rows.len() ==> event_row(#[trigger] rows[i]) is Ok,
        (forall|i: int|
            0 <= i < rows.len() ==> (event_row(#[trigger] rows[i])->Ok_0).0 != worker) ==> (
        events_from(known, rows)->Ok_0.contains_key(worker) == known.contains_key(worker) && (
        known.contains_key(worker) ==> events_from(known, rows)->Ok_0[worker] == known[worker])),
        forall|i: int|
            0 <= i < rows.len() && (event_row(#[trigger] rows[i])->Ok_0).0 == worker && (forall|j: int|
                i < j < rows.len() ==> (event_row(#[trigger] rows[j])->Ok_0).0 != worker) ==> {
                &&& events_from(known, rows)->Ok_0.contains_key(worker)
                &&& events_from(known, rows)->Ok_0[worker] == (
                    (event_row(rows[i])->Ok_0).1,
                    (event_row(rows[i])->Ok_0).2,
                )
            },
    decreases rows.len(),
{
    if rows.len() > 0 {
        let rest = rows.drop_first();
        let first = event_row(rows[0])->Ok_0;
        let next = known.insert(first.0, (first.1, first.2));
        the_last_row_of_a_process_counts(next, rest, worker);
        assert forall|i: int| 0 <= i < rows.len() implies event_row(#[trigger] rows[i]) is Ok by {
            if i > 0 {
                assert(rest[i - 1] == rows[i]);
            }
        }
        assert forall|i: int| 0 <= i < rest.len() implies #[trigger] rest[i] == rows[i + 1] by {}
        if forall|i: int| 0 <= i < rows.len() ==> (event_row(#[trigger] rows[i])->Ok_0).0 != worker {
            assert forall|i: int| 0 <= i < rest.len() implies (event_row(#[trigger] rest[i])->Ok_0).0
                != worker by {
                assert(rest[i] == rows[i + 1]);
            }
        }
        assert forall|i: int|
            0 <= i < rows.len() && (event_row(#[trigger] rows[i])->Ok_0).0 == worker && (forall|j: int|
                i < j < rows.len() ==> (event_row(#[trigger] rows[j])->Ok_0).0 != worker) implies {
            &&& events_from(known, rows)->Ok_0.contains_key(worker)
            &&& events_from(known, rows)->Ok_0[worker] == (
                (event_row(rows[i])->Ok_0).1,
                (event_row(rows[i])->Ok_0).2,
            )
        } by {
            assert forall|j: int| i - 1 < j < rest.len() implies (event_row(
                #[trigger] rest[j],
            )->Ok_0).0 != worker by {
                assert(rest[j] == rows[j + 1]);
            }
            if i > 0 {
                assert(rest[i - 1] == rows[i]);
            }
        }
    }
}

/// A row of events is read as it was written: the process, how many it wrote, and
/// their sum.
pub proof fn a_row_of_events_reads_back(worker: u64, count: u64, sum: u64)
    ensures
        event_row(
            decimal(worker as nat) + seq!['|'] + decimal(count as nat) + seq!['|'] + decimal(
                sum as nat,
            ),
        ) == Ok::<(u64, u64, u64), Seq<char>>((worker, count, sum)),
{
    let a = decimal(worker as nat);
    let b = decimal(count as nat);
    let c = decimal(sum as nat);
    decimal_reads_back(worker as nat, u64::MAX as nat);
    decimal_reads_back(count as nat, u64::MAX as nat);
    decimal_reads_back(sum as nat, u64::MAX as nat);
    let line = a + seq!['|'] + b + seq!['|'] + c;
    let rest = b + seq!['|'] + c;
    digits_hold_no_bar(worker as nat);
    digits_hold_no_bar(count as nat);
    digits_hold_no_bar(sum as nat);
    assert(line == a + seq!['|'] + rest);
    part_is_split_off(a, rest);
    part_is_split_off(b, c);
    index_of_is_first(c, '|');
    assert(split(c, '|') == seq![c]);
    assert(split(line, '|')[0] == a);
    assert(split(line, '|')[1] == b);
    assert(split(line, '|')[2] == c);
}

proof fn digits_hold_no_bar(n: nat)
    ensures
        forall|i: int| 0 <= i < decimal(n).len() ==> #[trigger] decimal(n)[i] != '|',
{
    decimal_is_digits(n);
    assert forall|i: int| 0 <= i < decimal(n).len() implies #[trigger] decimal(n)[i] != '|' by {
        assert(is_digit(decimal(n)[i]));
    }
}

proof fn part_is_split_off(a: Seq<char>, rest: Seq<char>)
    requires
        forall|i: int| 0 <= i < a.len() ==> #[trigger] a[i] != '|',
    ensures
        split(a + seq!['|'] + rest, '|') == seq![a] + split(rest, '|'),
{
    let s = a + seq!['|'] + rest;
    index_of_is_first(s, '|');
    assert(s[a.len() as int] == '|');
    let i = index_of(s, '|');
    if i < a.len() {
        assert(s[i] == a[i]);
    }
    assert(s.take(i) == a);
    assert(s.skip(i + 1) == rest);
}

/// An audit that fails says what is not there.
pub proof fn an_audit_says_what_is_not_there(s: AuditState, event: AuditEvent)
    requires
        s.wf(),
        s.phase != AuditPhase::Over,
        s.step(event).deed is Failed,
    ensures
        ({
            let error = s.step(event).deed->error;
            match event {
                AuditEvent::File { result: Err(why) } => error == why@,
                AuditEvent::Answer { result: Err(why) } => error == why@,
                AuditEvent::File { result: Ok(_) } => error == if s.phase == AuditPhase::Storage {
                    "storage is not a SQLite file"@
                } else {
                    "replacement path is no longer a stub"@
                },
                AuditEvent::Answer { result: Ok(text) } => match s.phase {
                    AuditPhase::Integrity => error == "integrity check failed: "@ + text@,
                    AuditPhase::Seen => error == "ALTER column seen missing in the file: "@ + text@,
                    AuditPhase::Sample => error == "worker "@ + decimal(
                        s.claims[s.at].worker as nat,
                    ) + " token "@ + s.claims[s.at].sample + " is missing from the file"@,
                    AuditPhase::Last => error == "worker "@ + decimal(
                        s.claims[s.at].worker as nat,
                    ) + " token "@ + s.claims[s.at].last + " is missing from the file"@,
                    _ => true,
                },
            }
        }),
{
}

/// What an audit says of a process whose writes are all in the file, and where
/// the file has none or others of it.
pub proof fn an_audit_names_the_process(s: AuditState, said: Seq<Seq<char>>)
    requires
        0 <= s.at < s.claims.len(),
    ensures
        ({
            let c = s.claims[s.at];
            let w = decimal(c.worker as nat);
            if !s.table.contains_key(c.worker) {
                s.check(said).deed == (AuditDeed::Failed {
                    error: "worker "@ + w + " reported "@ + decimal(c.writes as nat)
                        + " writes but the file has none"@,
                })
            } else if s.table[c.worker].0 != c.writes || s.table[c.worker].1 != c.sum_seq {
                s.check(said).deed == (AuditDeed::Failed {
                    error: "worker "@ + w + " file has "@ + decimal(s.table[c.worker].0 as nat)
                        + " writes sum "@ + decimal(s.table[c.worker].1 as nat)
                        + ", process reported "@ + decimal(c.writes as nat) + " writes sum "@
                        + decimal(c.sum_seq as nat),
                })
            } else {
                s.check(said).deed is Ask
            }
        }),
        s.check(said).said == said,
{
}

} // verus!
