//! A load test: one broker, several load processes, an audit of the file.
use vstd::prelude::*;

use crate::claim::{claimed, parse_claim, Claim, ClaimState};
use crate::audit::claim_views;
use crate::number::{decimal, u128_text, u64_text};
use crate::text::{begins_with, copy_text, join, joined, text_begins_with, texts, trim, trimmed};

verus! {

/// How long a load process may take, in milliseconds.
pub const WAIT_LIMIT_MS: u64 = 180_000;

/// How long to wait before a load process is looked at again, in milliseconds.
pub const WAIT_PAUSE_MS: u64 = 20;

/// What to do about a load process that is waited for.
#[derive(Debug, Clone, Copy, PartialEq, Eq, Structural)]
pub enum WaitStep {
    /// It has ended.
    Ended,
    /// It takes too long and is to be killed.
    Hung,
    /// Look again after a pause.
    Pause,
}

/// What to do about a load process that has run for so long.
pub fn wait_child(ended: bool, elapsed_ms: u64) -> (r: WaitStep)
    ensures
        r == if ended {
            WaitStep::Ended
        } else if elapsed_ms > WAIT_LIMIT_MS {
            WaitStep::Hung
        } else {
            WaitStep::Pause
        },
{
    if ended {
        WaitStep::Ended
    } else if elapsed_ms > WAIT_LIMIT_MS {
        WaitStep::Hung
    } else {
        WaitStep::Pause
    }
}

/// What is said of a load process that was killed.
pub fn hung_text(pid: u32) -> (out: String)
    ensures
        out@ == "worker pid "@ + decimal(pid as nat) + " hung"@,
{
    let mut out = copy_text("worker pid ");
    out.append(u64_text(pid as u64).as_str());
    out.append(" hung");
    out
}

/// The directory of a load test, where none is named.
pub fn storm_dir(pid: u32, nanos: u128) -> (out: String)
    ensures
        out@ == "sqlite-broker-storm-"@ + decimal(pid as nat) + "-"@ + decimal(nanos as nat),
{
    let mut out = copy_text("sqlite-broker-storm-");
    out.append(u64_text(pid as u64).as_str());
    out.append("-");
    out.append(u128_text(nanos).as_str());
    out
}

/// The file for what a load process says.
pub fn worker_file(worker: u32, ending: &str) -> (out: String)
    ensures
        out@ == "worker-"@ + decimal(worker as nat) + ending@,
{
    let mut out = copy_text("worker-");
    out.append(u64_text(worker as u64).as_str());
    out.append(ending);
    out
}

/// What is said of a load test with fewer than two processes.
pub const TOO_FEW_APPS: &'static str = "storm wants at least 2 apps";

/// A load test needs two processes.
pub fn enough_apps(apps: u32) -> (r: Result<(), String>)
    ensures
        match r {
            Ok(_) => apps >= 2,
            Err(why) => apps < 2 && why@ == TOO_FEW_APPS@,
        },
{
    if apps < 2 {
        Err(copy_text(TOO_FEW_APPS))
    } else {
        Ok(())
    }
}

/// The seed of a load process.
pub open spec fn worker_seed(worker: u32) -> int {
    0x9E37_79B9 + worker * 0x1000
}

/// Load processes get different seeds, and all of them fit.
pub proof fn seeds_differ(a: u32, b: u32)
    ensures
        worker_seed(a) <= u64::MAX,
        a != b ==> worker_seed(a) != worker_seed(b),
{
}

/// The arguments of the broker.
pub open spec fn serve_args(storage: Seq<char>, stub: Seq<char>) -> Seq<Seq<char>> {
    seq!["serve"@, "--storage"@, storage, "--stub"@, stub]
}

/// The arguments of a load process.
pub open spec fn hammer_args(stub: Seq<char>, worker: u32, ops: u32) -> Seq<Seq<char>> {
    seq![
        "hammer"@,
        "--db"@,
        stub,
        "--worker"@,
        decimal(worker as nat),
        "--ops"@,
        decimal(ops as nat),
        "--seed"@,
        decimal(worker_seed(worker) as nat),
    ]
}

fn serve_args_of(storage: &str, stub: &str) -> (out: Vec<String>)
    ensures
        texts(out@) == serve_args(storage@, stub@),
{
    let mut out: Vec<String> = Vec::new();
    out.push(copy_text("serve"));
    out.push(copy_text("--storage"));
    out.push(copy_text(storage));
    out.push(copy_text("--stub"));
    out.push(copy_text(stub));
    assert(texts(out@) =~= serve_args(storage@, stub@));
    out
}

fn hammer_args_of(stub: &str, worker: u32, ops: u32) -> (out: Vec<String>)
    ensures
        texts(out@) == hammer_args(stub@, worker, ops),
{
    let seed: u64 = 0x9E37_79B9 + (worker as u64) * 0x1000;
    let mut out: Vec<String> = Vec::new();
    out.push(copy_text("hammer"));
    out.push(copy_text("--db"));
    out.push(copy_text(stub));
    out.push(copy_text("--worker"));
    out.push(u64_text(worker as u64));
    out.push(copy_text("--ops"));
    out.push(u64_text(ops as u64));
    out.push(copy_text("--seed"));
    out.push(u64_text(seed));
    assert(texts(out@) =~= hammer_args(stub@, worker, ops));
    out
}

/// What a load test waits for.
#[derive(Debug, Clone, Copy, PartialEq, Eq, Structural)]
pub enum StormPhase {
    /// The broker is being started.
    Starting,
    /// Its first line is being read.
    Readying,
    /// It said something else and is being killed.
    Killing,
    /// The load processes are being started.
    Spawning,
    /// The load processes are being waited for.
    Waiting,
    /// The file is being audited.
    Auditing,
    /// The broker is being stopped.
    Stopping,
    Over,
}

/// What happened in a load test.
#[derive(Debug)]
#[allow(inconsistent_fields)]
pub enum StormEvent {
    /// The broker was started, or why not.
    ServerStarted { error: Option<String> },
    /// The first line of the broker, if there is one, and how it is shown.
    FirstLine { line: Option<String>, shown: String },
    /// The broker was killed.
    Killed,
    /// A load process was started, or why not.
    WorkerStarted { error: Option<String> },
    /// A load process ended: whether all went well, how its end is shown, what
    /// it said, and what it complained of.
    WorkerEnded { success: bool, status: String, summary: String, complaint: String },
    /// The audit passed, or why not.
    Audited { error: Option<String> },
    /// The broker was stopped. How long the load processes took, how large the
    /// file is, and where all is kept.
    Stopped { elapsed_ms: u64, bytes: u64, dir: String },
    /// Something else failed.
    Broken { error: String },
}

/// What a load test does next.
#[derive(Debug)]
#[allow(inconsistent_fields)]
pub enum StormAction {
    StartServer { args: Vec<String> },
    ReadLine,
    Kill,
    StartWorker { worker: u32, args: Vec<String> },
    AwaitWorker { worker: u32 },
    Audit { claims: Vec<Claim> },
    StopServer,
    Passed,
    Failed { error: String },
    /// The event does not belong here.
    Unexpected,
}

/// What a load test does next.
#[allow(inconsistent_fields)]
pub enum StormDeed {
    StartServer { args: Seq<Seq<char>> },
    ReadLine,
    Kill,
    StartWorker { worker: u32, args: Seq<Seq<char>> },
    AwaitWorker { worker: u32 },
    Audit { claims: Seq<ClaimState> },
    StopServer,
    Passed,
    Failed { error: Seq<char> },
    Unexpected,
}

impl View for StormAction {
    type V = StormDeed;

    open spec fn view(&self) -> StormDeed {
        match self {
            StormAction::StartServer { args } => StormDeed::StartServer { args: texts(args@) },
            StormAction::ReadLine => StormDeed::ReadLine,
            StormAction::Kill => StormDeed::Kill,
            StormAction::StartWorker { worker, args } => StormDeed::StartWorker {
                worker: *worker,
                args: texts(args@),
            },
            StormAction::AwaitWorker { worker } => StormDeed::AwaitWorker { worker: *worker },
            StormAction::Audit { claims } => StormDeed::Audit { claims: claim_views(claims@) },
            StormAction::StopServer => StormDeed::StopServer,
            StormAction::Passed => StormDeed::Passed,
            StormAction::Failed { error } => StormDeed::Failed { error: error@ },
            StormAction::Unexpected => StormDeed::Unexpected,
        }
    }
}

/// The state of a load test.
pub struct StormState {
    pub apps: u32,
    pub ops: u32,
    pub stub: Seq<char>,
    /// How many load processes were started.
    pub started: u32,
    /// How many of them have ended.
    pub ended: u32,
    /// What is said of those that failed.
    pub failed: Seq<Seq<char>>,
    /// What those that went well say.
    pub claims: Seq<ClaimState>,
    /// How the broker's first line is shown, or what the audit found.
    pub error: Option<Seq<char>>,
    pub phase: StormPhase,
}

/// A step of a load test: the state, what is said, what comes next.
pub struct StormStep {
    pub state: StormState,
    pub said: Seq<Seq<char>>,
    pub deed: StormDeed,
}

/// What is said of a load process that failed.
pub open spec fn worker_failure(worker: u32, status: Seq<char>, complaint: Seq<char>) -> Seq<
    char,
> {
    "worker "@ + decimal(worker as nat) + " "@ + status + ": "@ + trim(complaint)
}

/// What is said at the end of a load test.
pub open spec fn storm_summary(
    apps: u32,
    ops: u32,
    elapsed_ms: u64,
    bytes: u64,
    dir: Seq<char>,
) -> Seq<char> {
    "apps="@ + decimal(apps as nat) + " ops_each="@ + decimal(ops as nat) + " elapsed_ms="@
        + decimal(elapsed_ms as nat) + " file_bytes="@ + decimal(bytes as nat) + " dir="@ + dir
}

impl StormState {
    /// The first step. A load test with fewer than two processes fails at once.
    pub open spec fn begin(apps: u32, ops: u32, storage: Seq<char>, stub: Seq<char>) -> StormStep {
        let state = StormState {
            apps,
            ops,
            stub,
            started: 0,
            ended: 0,
            failed: seq![],
            claims: seq![],
            error: None,
            phase: StormPhase::Starting,
        };
        if apps < 2 {
            state.fail(seq![], TOO_FEW_APPS@)
        } else {
            StormStep {
                state,
                said: seq![],
                deed: StormDeed::StartServer { args: serve_args(storage, stub) },
            }
        }
    }

    /// The load test fails.
    pub open spec fn fail(self, said: Seq<Seq<char>>, error: Seq<char>) -> StormStep {
        StormStep {
            state: StormState { phase: StormPhase::Over, ..self },
            said,
            deed: StormDeed::Failed { error },
        }
    }

    /// Something is to be done, with nothing to say.
    pub open spec fn quietly(self, phase: StormPhase, deed: StormDeed) -> StormStep {
        StormStep { state: StormState { phase, ..self }, said: seq![], deed }
    }

    /// The next load process is started; once all are, they are waited for.
    pub open spec fn spawn(self) -> StormStep {
        if self.started < self.apps {
            self.quietly(
                StormPhase::Spawning,
                StormDeed::StartWorker {
                    worker: self.started,
                    args: hammer_args(self.stub, self.started, self.ops),
                },
            )
        } else {
            self.wait(seq![])
        }
    }

    /// The next load process is waited for; once all have ended, the file is
    /// audited.
    pub open spec fn wait(self, said: Seq<Seq<char>>) -> StormStep {
        if self.ended < self.apps {
            StormStep {
                state: StormState { phase: StormPhase::Waiting, ..self },
                said,
                deed: StormDeed::AwaitWorker { worker: self.ended },
            }
        } else {
            StormStep {
                state: StormState { phase: StormPhase::Auditing, ..self },
                said,
                deed: StormDeed::Audit { claims: self.claims },
            }
        }
    }

    /// A load process ended.
    pub open spec fn worker_ended(
        self,
        success: bool,
        status: Seq<char>,
        summary: Seq<char>,
        complaint: Seq<char>,
    ) -> StormStep {
        let said = seq![trim(summary)];
        let next = StormState { ended: (self.ended + 1) as u32, ..self };
        if !success {
            StormState {
                failed: self.failed.push(worker_failure(self.ended, status, complaint)),
                ..next
            }.wait(said)
        } else {
            match claimed(trim(summary)) {
                Err(why) => self.fail(said, why),
                Ok(claim) => StormState { claims: self.claims.push(claim), ..next }.wait(said),
            }
        }
    }

    /// The broker was stopped, and the load test has an outcome: what the audit
    /// found counts first, then what went wrong in the load processes.
    pub open spec fn verdict(self, summary: Seq<char>) -> StormStep {
        match self.error {
            Some(error) => self.fail(seq![summary], error),
            None => if self.failed.len() > 0 {
                self.fail(seq![summary], join(self.failed, "\n"@))
            } else {
                StormStep {
                    state: StormState { phase: StormPhase::Over, ..self },
                    said: seq![summary, "storm_ok file_matches_writes"@],
                    deed: StormDeed::Passed,
                }
            },
        }
    }

    /// What an event does.
    pub open spec fn step(self, event: StormEvent) -> StormStep {
        match (self.phase, event) {
            (StormPhase::Starting, StormEvent::ServerStarted { error }) => match error {
                None => self.quietly(StormPhase::Readying, StormDeed::ReadLine),
                Some(e) => self.fail(seq![], "spawn serve: "@ + e@),
            },
            (StormPhase::Readying, StormEvent::FirstLine { line, shown }) => if line is Some
                && begins_with(line->0@, "ready "@) {
                self.spawn()
            } else {
                StormState { error: Some(shown@), ..self }.quietly(
                    StormPhase::Killing,
                    StormDeed::Kill,
                )
            },
            (StormPhase::Killing, StormEvent::Killed) => self.fail(
                seq![],
                "server did not become ready: "@ + match self.error {
                    Some(shown) => shown,
                    None => seq![],
                },
            ),
            (StormPhase::Spawning, StormEvent::WorkerStarted { error }) => match error {
                None => StormState { started: (self.started + 1) as u32, ..self }.spawn(),
                Some(e) => self.fail(
                    seq![],
                    "spawn worker "@ + decimal(self.started as nat) + ": "@ + e@,
                ),
            },
            (
                StormPhase::Waiting,
                StormEvent::WorkerEnded { success, status, summary, complaint },
            ) => self.worker_ended(success, status@, summary@, complaint@),
            (StormPhase::Auditing, StormEvent::Audited { error }) => StormState {
                error: match error {
                    Some(e) => Some(e@),
                    None => None,
                },
                ..self
            }.quietly(StormPhase::Stopping, StormDeed::StopServer),
            (StormPhase::Stopping, StormEvent::Stopped { elapsed_ms, bytes, dir }) => self.verdict(
                storm_summary(self.apps, self.ops, elapsed_ms, bytes, dir@),
            ),
            (_, StormEvent::Broken { error }) => self.fail(seq![], error@),
            _ => StormStep { state: self, said: seq![], deed: StormDeed::Unexpected },
        }
    }

    /// What holds of every state: each load process that has ended either failed
    /// or made a claim.
    pub open spec fn wf(self) -> bool {
        &&& self.phase != StormPhase::Over ==> self.apps >= 2
        &&& self.started <= self.apps
        &&& self.ended <= self.apps
        &&& self.failed.len() + self.claims.len() == self.ended
        &&& self.phase == StormPhase::Spawning ==> self.started < self.apps
        &&& self.phase == StormPhase::Waiting ==> self.ended < self.apps
        &&& self.phase == StormPhase::Auditing || self.phase == StormPhase::Stopping ==> self.ended
            == self.apps
    }
}

/// A load test.
#[derive(Debug)]
pub struct Storm {
    apps: u32,
    ops: u32,
    stub: String,
    started: u32,
    ended: u32,
    failed: Vec<String>,
    claims: Vec<Claim>,
    error: Option<String>,
    phase: StormPhase,
}

/// What a text that may be missing says.
pub open spec fn maybe_text(text: Option<String>) -> Option<Seq<char>> {
    match text {
        Some(t) => Some(t@),
        None => None,
    }
}

impl View for Storm {
    type V = StormState;

    closed spec fn view(&self) -> StormState {
        StormState {
            apps: self.apps,
            ops: self.ops,
            stub: self.stub@,
            started: self.started,
            ended: self.ended,
            failed: texts(self.failed@),
            claims: claim_views(self.claims@),
            error: maybe_text(self.error),
            phase: self.phase,
        }
    }
}

/// What is said in a step of a load test, and what comes next.
#[derive(Debug)]
pub struct StormReply {
    pub said: Vec<String>,
    pub action: StormAction,
}

/// Whether the reply is that of a step.
pub open spec fn is_storm_reply(r: StormReply, step: StormStep) -> bool {
    texts(r.said@) == step.said && r.action@ == step.deed
}

fn copy_claim(c: &Claim) -> (r: Claim)
    ensures
        r@ == c@,
{
    Claim {
        worker: c.worker,
        ops: c.ops,
        reads: c.reads,
        writes: c.writes,
        inserts: c.inserts,
        updates: c.updates,
        deletes: c.deletes,
        sum_seq: c.sum_seq,
        sample: copy_text(c.sample.as_str()),
        last: copy_text(c.last.as_str()),
    }
}

fn copy_claims(claims: &Vec<Claim>) -> (out: Vec<Claim>)
    ensures
        claim_views(out@) == claim_views(claims@),
{
    let mut out: Vec<Claim> = Vec::new();
    let mut i: usize = 0;
    while i < claims.len()
        invariant
            i <= claims.len(),
            claim_views(out@) == claim_views(claims@).take(i as int),
        decreases claims.len() - i,
    {
        let ghost before = claim_views(out@);
        out.push(copy_claim(&claims[i]));
        assert(claim_views(out@) == before.push(claims@[i as int]@));
        assert(claim_views(claims@).take(i + 1) == claim_views(claims@).take(i as int).push(
            claims@[i as int]@,
        ));
        i = i + 1;
    }
    assert(claim_views(claims@).take(i as int) == claim_views(claims@));
    out
}

fn nothing_said() -> (v: Vec<String>)
    ensures
        texts(v@) == Seq::<Seq<char>>::empty(),
{
    let v: Vec<String> = Vec::new();
    assert(texts(v@) == Seq::<Seq<char>>::empty());
    v
}

fn labelled(label: &str, text: &str) -> (out: String)
    ensures
        out@ == label@ + text@,
{
    let mut out = copy_text(label);
    out.append(text);
    out
}

/// Begins a load test, if there are enough processes for one.
pub fn storm(apps: u32, ops: u32, storage: &str, stub: &str) -> (r: (Storm, StormReply))
    ensures
        r.0@ == StormState::begin(apps, ops, storage@, stub@).state,
        is_storm_reply(r.1, StormState::begin(apps, ops, storage@, stub@)),
        r.0@.wf(),
{
    let mut s = Storm {
        apps,
        ops,
        stub: copy_text(stub),
        started: 0,
        ended: 0,
        failed: Vec::new(),
        claims: Vec::new(),
        error: None,
        phase: StormPhase::Starting,
    };
    assert(s@.failed == Seq::<Seq<char>>::empty());
    assert(s@.claims == Seq::<ClaimState>::empty());
    match enough_apps(apps) {
        Ok(_) => {
            let action = StormAction::StartServer { args: serve_args_of(storage, stub) };
            (s, StormReply { said: nothing_said(), action })
        },
        Err(why) => {
            let reply = s.fail(nothing_said(), why);
            (s, reply)
        },
    }
}

impl Storm {
    fn fail(&mut self, said: Vec<String>, error: String) -> (r: StormReply)
        ensures
            final(self)@ == old(self)@.fail(texts(said@), error@).state,
            is_storm_reply(r, old(self)@.fail(texts(said@), error@)),
    {
        self.phase = StormPhase::Over;
        StormReply { said, action: StormAction::Failed { error } }
    }

    fn quietly(&mut self, phase: StormPhase, action: StormAction) -> (r: StormReply)
        ensures
            final(self)@ == old(self)@.quietly(phase, action@).state,
            is_storm_reply(r, old(self)@.quietly(phase, action@)),
    {
        self.phase = phase;
        StormReply { said: nothing_said(), action }
    }

    fn spawn(&mut self) -> (r: StormReply)
        ensures
            final(self)@ == old(self)@.spawn().state,
            is_storm_reply(r, old(self)@.spawn()),
    {
        if self.started < self.apps {
            let worker: u32 = self.started;
            let args = hammer_args_of(self.stub.as_str(), worker, self.ops);
            self.quietly(StormPhase::Spawning, StormAction::StartWorker { worker, args })
        } else {
            self.wait(nothing_said())
        }
    }

    fn wait(&mut self, said: Vec<String>) -> (r: StormReply)
        ensures
            final(self)@ == old(self)@.wait(texts(said@)).state,
            is_storm_reply(r, old(self)@.wait(texts(said@))),
    {
        if self.ended < self.apps {
            self.phase = StormPhase::Waiting;
            StormReply { said, action: StormAction::AwaitWorker { worker: self.ended } }
        } else {
            self.phase = StormPhase::Auditing;
            StormReply { said, action: StormAction::Audit { claims: copy_claims(&self.claims) } }
        }
    }

    fn worker_ended(&mut self, success: bool, status: &str, summary: &str, complaint: &str) -> (r:
        StormReply)
        requires
            old(self)@.ended < old(self)@.apps,
        ensures
            final(self)@ == old(self)@.worker_ended(success, status@, summary@, complaint@).state,
            is_storm_reply(
                r,
                old(self)@.worker_ended(success, status@, summary@, complaint@),
            ),
    {
        let line = trimmed(summary);
        let mut said: Vec<String> = Vec::new();
        said.push(copy_text(line.as_str()));
        assert(texts(said@) == seq![trim(summary@)]);
        if !success {
            let mut failure = copy_text("worker ");
            failure.append(u64_text(self.ended as u64).as_str());
            failure.append(" ");
            failure.append(status);
            failure.append(": ");
            failure.append(trimmed(complaint).as_str());
            self.failed.push(failure);
            assert(texts(self.failed@) =~= old(self)@.failed.push(failure@));
            self.ended = self.ended + 1;
            return self.wait(said);
        }
        match parse_claim(line.as_str()) {
            Err(why) => self.fail(said, why),
            Ok(claim) => {
                self.claims.push(claim);
                assert(claim_views(self.claims@) =~= old(self)@.claims.push(claim@));
                self.ended = self.ended + 1;
                self.wait(said)
            },
        }
    }

    fn verdict(&mut self, summary: String) -> (r: StormReply)
        ensures
            final(self)@ == old(self)@.verdict(summary@).state,
            is_storm_reply(r, old(self)@.verdict(summary@)),
    {
        let mut said: Vec<String> = Vec::new();
        said.push(summary);
        assert(texts(said@) == seq![summary@]);
        match &self.error {
            Some(error) => {
                let error = error.clone();
                self.fail(said, error)
            },
            None => {
                if self.failed.len() > 0 {
                    let error = joined(&self.failed, "\n");
                    self.fail(said, error)
                } else {
                    said.push(copy_text("storm_ok file_matches_writes"));
                    assert(texts(said@) =~= seq![summary@, "storm_ok file_matches_writes"@]);
                    self.phase = StormPhase::Over;
                    StormReply { said, action: StormAction::Passed }
                }
            },
        }
    }

    fn summary(&self, elapsed_ms: u64, bytes: u64, dir: &str) -> (out: String)
        ensures
            out@ == storm_summary(self@.apps, self@.ops, elapsed_ms, bytes, dir@),
    {
        let mut out = copy_text("apps=");
        out.append(u64_text(self.apps as u64).as_str());
        out.append(" ops_each=");
        out.append(u64_text(self.ops as u64).as_str());
        out.append(" elapsed_ms=");
        out.append(u64_text(elapsed_ms).as_str());
        out.append(" file_bytes=");
        out.append(u64_text(bytes).as_str());
        out.append(" dir=");
        out.append(dir);
        out
    }

    /// Takes an event and says what comes next.
    pub fn step(&mut self, event: StormEvent) -> (r: StormReply)
        requires
            old(self)@.wf(),
        ensures
            final(self)@ == old(self)@.step(event).state,
            is_storm_reply(r, old(self)@.step(event)),
            final(self)@.wf(),
    {
        match (self.phase, event) {
            (StormPhase::Starting, StormEvent::ServerStarted { error }) => match error {
                None => self.quietly(StormPhase::Readying, StormAction::ReadLine),
                Some(e) => self.fail(nothing_said(), labelled("spawn serve: ", e.as_str())),
            },
            (StormPhase::Readying, StormEvent::FirstLine { line, shown }) => {
                let ready = match &line {
                    Some(text) => text_begins_with(text.as_str(), "ready "),
                    None => false,
                };
                if ready {
                    self.spawn()
                } else {
                    self.error = Some(shown);
                    self.quietly(StormPhase::Killing, StormAction::Kill)
                }
            },
            (StormPhase::Killing, StormEvent::Killed) => {
                let mut error = copy_text("server did not become ready: ");
                match &self.error {
                    Some(shown) => error.append(shown.as_str()),
                    None => {
                        assert(error@ + Seq::<char>::empty() == error@);
                    },
                }
                self.fail(nothing_said(), error)
            },
            (StormPhase::Spawning, StormEvent::WorkerStarted { error }) => match error {
                None => {
                    self.started = self.started + 1;
                    self.spawn()
                },
                Some(e) => {
                    let mut error = copy_text("spawn worker ");
                    error.append(u64_text(self.started as u64).as_str());
                    error.append(": ");
                    error.append(e.as_str());
                    self.fail(nothing_said(), error)
                },
            },
            (
                StormPhase::Waiting,
                StormEvent::WorkerEnded { success, status, summary, complaint },
            ) => self.worker_ended(
                success,
                status.as_str(),
                summary.as_str(),
                complaint.as_str(),
            ),
            (StormPhase::Auditing, StormEvent::Audited { error }) => {
                self.error = error;
                self.quietly(StormPhase::Stopping, StormAction::StopServer)
            },
            (StormPhase::Stopping, StormEvent::Stopped { elapsed_ms, bytes, dir }) => {
                let summary = self.summary(elapsed_ms, bytes, dir.as_str());
                self.verdict(summary)
            },
            (_, StormEvent::Broken { error }) => self.fail(nothing_said(), error),
            _ => StormReply { said: nothing_said(), action: StormAction::Unexpected },
        }
    }
}

/// A load test passes only if every load process ended well and made a claim,
/// and the audit found all of them in the file.
pub proof fn a_passed_load_test_missed_nothing(s: StormState, event: StormEvent)
    requires
        s.wf(),
        s.step(event).deed == StormDeed::Passed,
    ensures
        s.apps >= 2,
        s.claims.len() == s.apps,
        s.failed.len() == 0,
        s.error is None,
{
}

/// The audit is given what every load process that ended well says.
pub proof fn the_audit_gets_every_claim(
    s: StormState,
    event: StormEvent,
    claims: Seq<ClaimState>,
)
    requires
        s.wf(),
        s.step(event).deed == (StormDeed::Audit { claims }),
    ensures
        claims.len() + s.step(event).state.failed.len() == s.apps,
        claims == s.step(event).state.claims,
{
}

/// What a load test is made with.
pub struct StormSetup {
    pub apps: u32,
    pub ops: u32,
    pub storage: Seq<char>,
    pub stub: Seq<char>,
}

/// The last step of a load test after some events.
pub open spec fn storm_after(setup: StormSetup, events: Seq<StormEvent>) -> StormStep
    decreases events.len(),
{
    if events.len() == 0 {
        StormState::begin(setup.apps, setup.ops, setup.storage, setup.stub)
    } else {
        storm_after(setup, events.drop_last()).state.step(events.last())
    }
}

/// Whether every event is one that the load test waited for.
pub open spec fn all_storm_events_awaited(setup: StormSetup, events: Seq<StormEvent>) -> bool
    decreases events.len(),
{
    events.len() > 0 ==> {
        &&& all_storm_events_awaited(setup, events.drop_last())
        &&& storm_after(setup, events).deed != StormDeed::Unexpected
    }
}

/// What a load test does before the event at a position: it starts the broker
/// and reads its first line, starts each load process, waits for each, audits
/// the claims, and stops the broker.
pub open spec fn storm_deed(setup: StormSetup, claims: Seq<ClaimState>, k: int) -> StormDeed {
    if k == 0 {
        StormDeed::StartServer { args: serve_args(setup.storage, setup.stub) }
    } else if k == 1 {
        StormDeed::ReadLine
    } else if k < 2 + setup.apps {
        StormDeed::StartWorker {
            worker: (k - 2) as u32,
            args: hammer_args(setup.stub, (k - 2) as u32, setup.ops),
        }
    } else if k < 2 + 2 * setup.apps {
        StormDeed::AwaitWorker { worker: (k - 2 - setup.apps) as u32 }
    } else if k == 2 + 2 * setup.apps {
        StormDeed::Audit { claims }
    } else {
        StormDeed::StopServer
    }
}

/// Whether the event at a position is what a load test that goes well gives: the
/// broker starts and says that it is ready, each load process starts, each ends
/// well with a claim, and the audit passes.
pub open spec fn is_good_storm_event(
    setup: StormSetup,
    claims: Seq<ClaimState>,
    k: int,
    event: StormEvent,
) -> bool {
    if k == 0 {
        event matches StormEvent::ServerStarted { error } && error is None
    } else if k == 1 {
        event matches StormEvent::FirstLine { line, .. } && line is Some && begins_with(
            line->0@,
            "ready "@,
        )
    } else if k < 2 + setup.apps {
        event matches StormEvent::WorkerStarted { error } && error is None
    } else if k < 2 + 2 * setup.apps {
        event matches StormEvent::WorkerEnded { success, summary, .. } && success && claimed(
            trim(summary@),
        ) == Ok::<ClaimState, Seq<char>>(claims[k - 2 - setup.apps])
    } else if k == 2 + 2 * setup.apps {
        event matches StormEvent::Audited { error } && error is None
    } else {
        event is Stopped
    }
}

impl StormState {
    /// How many events lead to this state, in a load test that has not failed.
    spec fn position(self) -> int {
        match self.phase {
            StormPhase::Starting => 0,
            StormPhase::Readying => 1,
            StormPhase::Killing => 2,
            StormPhase::Spawning => 2 + self.started,
            StormPhase::Waiting => 2 + self.apps + self.ended,
            StormPhase::Auditing => 2 + 2 * self.apps,
            StormPhase::Stopping => 3 + 2 * self.apps,
            StormPhase::Over => 4 + 2 * self.apps,
        }
    }

    /// Whether nothing went wrong so far.
    spec fn is_well(self) -> bool {
        self.failed.len() == 0 && self.error is None
    }

    /// What holds of the counts and the error in each phase.
    spec fn counts(self) -> bool {
        &&& self.phase == StormPhase::Starting || self.phase == StormPhase::Readying || self.phase
            == StormPhase::Killing ==> self.started == 0 && self.ended == 0
        &&& self.phase == StormPhase::Spawning ==> self.ended == 0
        &&& self.phase == StormPhase::Killing ==> self.error is Some
        &&& self.phase != StormPhase::Killing && self.phase != StormPhase::Stopping && self.phase
            != StormPhase::Over ==> self.error is None
    }

    /// Whether the load test was made so.
    spec fn is_of(self, setup: StormSetup) -> bool {
        self.apps == setup.apps && self.ops == setup.ops && self.stub == setup.stub
    }
}

/// What a load test that has not failed is about to do.
spec fn is_next(setup: StormSetup, t: StormStep) -> bool {
    if t.state.phase == StormPhase::Over {
        t.deed == StormDeed::Passed
    } else {
        t.deed == storm_deed(setup, t.state.claims, t.state.position())
    }
}

proof fn a_storm_step_goes_on(setup: StormSetup, s: StormState, event: StormEvent)
    requires
        s.wf(),
        s.counts(),
        s.is_of(setup),
        s.step(event).deed != StormDeed::Unexpected,
    ensures
        ({
            let t = s.step(event);
            &&& t.state.wf()
            &&& t.state.counts()
            &&& t.state.is_of(setup)
            &&& t.deed is Failed ==> t.state.phase == StormPhase::Over
            &&& t.deed !is Failed && t.state.is_well() ==> {
                &&& s.phase != StormPhase::Over
                &&& s.is_well()
                &&& t.state.position() == s.position() + 1
                &&& is_good_storm_event(setup, t.state.claims, s.position(), event)
                &&& is_next(setup, t)
                &&& if s.phase == StormPhase::Waiting {
                    t.state.claims.len() == s.claims.len() + 1 && t.state.claims.drop_last()
                        == s.claims
                } else {
                    t.state.claims == s.claims
                }
            }
        }),
{
}

proof fn a_storm_goes_on(setup: StormSetup, events: Seq<StormEvent>)
    requires
        all_storm_events_awaited(setup, events),
    ensures
        ({
            let t = storm_after(setup, events);
            &&& t.state.wf()
            &&& t.state.counts()
            &&& t.state.is_of(setup)
            &&& t.deed is Failed ==> t.state.phase == StormPhase::Over
            &&& t.deed !is Failed && t.state.is_well() ==> {
                &&& setup.apps >= 2
                &&& t.state.position() == events.len()
                &&& is_next(setup, t)
                &&& forall|k: int|
                    0 <= k < events.len() ==> is_good_storm_event(
                        setup,
                        t.state.claims,
                        k,
                        #[trigger] events[k],
                    )
                &&& forall|k: int|
                    0 <= k < events.len() ==> (#[trigger] storm_after(setup, events.take(k))).deed
                        == storm_deed(setup, t.state.claims, k)
            }
        }),
    decreases events.len(),
{
    if events.len() > 0 {
        let before = events.drop_last();
        a_storm_goes_on(setup, before);
        let u = storm_after(setup, before);
        let s = u.state;
        let t = storm_after(setup, events);
        a_storm_step_goes_on(setup, s, events.last());
        if t.deed !is Failed && t.state.is_well() {
            let claims = t.state.claims;
            assert forall|i: int| 0 <= i < s.claims.len() implies s.claims[i]
                == #[trigger] claims[i] by {
                if s.phase == StormPhase::Waiting {
                    assert(claims.drop_last()[i] == claims[i]);
                }
            }
            assert forall|k: int| 0 <= k < events.len() implies is_good_storm_event(
                setup,
                claims,
                k,
                #[trigger] events[k],
            ) by {
                if k < before.len() {
                    assert(before[k] == events[k]);
                    assert(is_good_storm_event(setup, s.claims, k, before[k]));
                }
            }
            assert forall|k: int| 0 <= k < events.len() implies (#[trigger] storm_after(
                setup,
                events.take(k),
            )).deed == storm_deed(setup, claims, k) by {
                if k < before.len() {
                    assert(before.take(k) == events.take(k));
                    assert(storm_after(setup, before.take(k)).deed == storm_deed(
                        setup,
                        s.claims,
                        k,
                    ));
                } else {
                    assert(events.take(k) == before);
                }
            }
        }
    }
}

/// A load test that passes had at least two load processes; the broker started
/// and said that it was ready, every load process was started once and ended
/// well with a claim, the audit was given these claims and passed, and the
/// broker was stopped, all in this order.
pub proof fn a_passed_load_test_went_well_throughout(setup: StormSetup, events: Seq<StormEvent>)
    requires
        all_storm_events_awaited(setup, events),
        storm_after(setup, events).deed == StormDeed::Passed,
    ensures
        setup.apps >= 2,
        events.len() == 4 + 2 * setup.apps,
        ({
            let claims = storm_after(setup, events).state.claims;
            &&& claims.len() == setup.apps
            &&& forall|k: int|
                0 <= k < events.len() ==> is_good_storm_event(
                    setup,
                    claims,
                    k,
                    #[trigger] events[k],
                )
            &&& forall|k: int|
                0 <= k < events.len() ==> (#[trigger] storm_after(setup, events.take(k))).deed
                    == storm_deed(setup, claims, k)
        }),
{
    a_storm_goes_on(setup, events);
    a_storm_goes_on(setup, events.drop_last());
    a_passed_load_test_missed_nothing(
        storm_after(setup, events.drop_last()).state,
        events.last(),
    );
}

proof fn a_good_storm_is_taken(
    setup: StormSetup,
    claims: Seq<ClaimState>,
    events: Seq<StormEvent>,
    k: int,
)
    requires
        setup.apps >= 2,
        claims.len() == setup.apps,
        0 <= k <= events.len() == 4 + 2 * setup.apps,
        forall|i: int|
            0 <= i < events.len() ==> is_good_storm_event(setup, claims, i, #[trigger] events[i]),
    ensures
        all_storm_events_awaited(setup, events.take(k)),
        storm_after(setup, events.take(k)).deed !is Failed,
        storm_after(setup, events.take(k)).state.is_well(),
        storm_after(setup, events.take(k)).state.claims == claims.take(
            storm_after(setup, events.take(k)).state.ended as int,
        ),
    decreases k,
{
    if k > 0 {
        let before = events.take(k - 1);
        a_good_storm_is_taken(setup, claims, events, k - 1);
        a_storm_goes_on(setup, before);
        assert(events.take(k).drop_last() == before);
        assert(events.take(k).last() == events[k - 1]);
        let s = storm_after(setup, before).state;
        let t = storm_after(setup, events.take(k)).state;
        assert(is_good_storm_event(setup, claims, k - 1, events[k - 1]));
        if s.phase == StormPhase::Waiting {
            assert(claims.take(s.ended + 1) == claims.take(s.ended as int).push(
                claims[s.ended as int],
            ));
        }
    }
}

/// A load test passes where all goes well: the broker becomes ready, every load
/// process starts and ends well with a claim, and the audit passes.
pub proof fn a_load_test_passes_where_all_goes_well(
    setup: StormSetup,
    claims: Seq<ClaimState>,
    events: Seq<StormEvent>,
)
    requires
        setup.apps >= 2,
        claims.len() == setup.apps,
        events.len() == 4 + 2 * setup.apps,
        forall|i: int|
            0 <= i < events.len() ==> is_good_storm_event(setup, claims, i, #[trigger] events[i]),
    ensures
        all_storm_events_awaited(setup, events),
        storm_after(setup, events).deed == StormDeed::Passed,
{
    assert(events.take(events.len() as int) == events);
    a_good_storm_is_taken(setup, claims, events, events.len() as int);
    a_storm_goes_on(setup, events);
}

/// A load test tells what went wrong: where the broker or a load process cannot
/// be started, where the broker does not become ready, where a process ends well
/// and says nothing that can be read. What the audit found comes before what went
/// wrong in the processes.
pub proof fn a_load_test_tells_what_went_wrong(s: StormState, event: StormEvent)
    requires
        s.wf(),
        s.step(event).deed != StormDeed::Unexpected,
        s.phase != StormPhase::Over,
    ensures
        match event {
            StormEvent::ServerStarted { error: Some(e) } => s.step(event).deed == (
            StormDeed::Failed { error: "spawn serve: "@ + e@ }),
            StormEvent::FirstLine { line, shown } => if line is Some && begins_with(
                line->0@,
                "ready "@,
            ) {
                s.step(event).deed !is Kill
            } else {
                &&& s.step(event).deed == StormDeed::Kill
                &&& s.step(event).state.step(StormEvent::Killed).deed == (StormDeed::Failed {
                    error: "server did not become ready: "@ + shown@,
                })
            },
            StormEvent::WorkerStarted { error: Some(e) } => s.step(event).deed == (
            StormDeed::Failed {
                error: "spawn worker "@ + decimal(s.started as nat) + ": "@ + e@,
            }),
            StormEvent::WorkerEnded { success, status, summary, complaint } => s.step(event).said
                == seq![trim(summary@)] && if success {
                match claimed(trim(summary@)) {
                    Ok(claim) => s.step(event).state.claims == s.claims.push(claim) && s.step(
                        event,
                    ).state.failed == s.failed && s.step(event).deed !is Failed,
                    Err(why) => s.step(event).deed == (StormDeed::Failed { error: why }),
                }
            } else {
                &&& s.step(event).deed !is Failed
                &&& s.step(event).state.claims == s.claims
                &&& s.step(event).state.failed == s.failed.push(
                    "worker "@ + decimal(s.ended as nat) + " "@ + status@ + ": "@ + trim(
                        complaint@,
                    ),
                )
            },
            StormEvent::Audited { error } => s.step(event).deed == StormDeed::StopServer && match error {
                Some(e) => s.step(event).state.error == Some(e@),
                None => s.step(event).state.error is None,
            },
            StormEvent::Stopped { elapsed_ms, bytes, dir } => ({
                let summary = "apps="@ + decimal(s.apps as nat) + " ops_each="@ + decimal(
                    s.ops as nat,
                ) + " elapsed_ms="@ + decimal(elapsed_ms as nat) + " file_bytes="@ + decimal(
                    bytes as nat,
                ) + " dir="@ + dir@;
                s.step(event).said == if s.error is None && s.failed.len() == 0 {
                    seq![summary, "storm_ok file_matches_writes"@]
                } else {
                    seq![summary]
                }
            }) && s.step(event).deed == match s.error {
                Some(e) => StormDeed::Failed { error: e },
                None => if s.failed.len() > 0 {
                    StormDeed::Failed { error: join(s.failed, "\n"@) }
                } else {
                    StormDeed::Passed
                },
            },
            StormEvent::Broken { error } => s.step(event).deed == (StormDeed::Failed {
                error: error@,
            }),
            _ => true,
        },
{
}

/// A load process is given three minutes, is told its own number, the stub, how
/// many operations to do, and a seed that depends on its number alone.
pub proof fn a_load_process_is_told_what_to_do(stub: Seq<char>, worker: u32, ops: u32)
    ensures
        WAIT_LIMIT_MS == 3 * 60 * 1000,
        hammer_args(stub, worker, ops) == seq![
            "hammer"@,
            "--db"@,
            stub,
            "--worker"@,
            decimal(worker as nat),
            "--ops"@,
            decimal(ops as nat),
            "--seed"@,
            decimal((2654435769 + 4096 * worker) as nat),
        ],
{
}

} // verus!
