//! The broker around its worker: opening the file, publishing the address,
//! talking to one client, the lines of its log.
use vstd::prelude::*;
use vstd::utf8::{decode_utf8, encode_utf8, encode_utf8_decode_utf8, is_char_boundary};

use crate::number::{decimal, u64_text};
use crate::protocol::{Hello, Request, Response};
use crate::text::{
    contains, contains_text, copy_text, join, joined, lower, lower_text,
    what_stands_in_a_text_is_found, words, words_of,
};
use crate::worker::LogEvent;

verus! {

// ------------------------------------------------------------------- log

/// The longest text of a statement in the log, in bytes.
pub const BRIEF_BYTES: usize = 120;

/// The statement on one line: its words with one space between them.
pub open spec fn one_line(sql: Seq<char>) -> Seq<char> {
    join(words(sql), " "@)
}

/// Whether the brief form of a statement does not cut a character in two.
pub open spec fn has_brief(sql: Seq<char>) -> bool {
    let bytes = encode_utf8(one_line(sql));
    bytes.len() <= BRIEF_BYTES || is_char_boundary(bytes, BRIEF_BYTES as int)
}

/// The statement on one line; of a long one the beginning, and three dots.
pub open spec fn brief(sql: Seq<char>) -> Seq<char> {
    let bytes = encode_utf8(one_line(sql));
    if bytes.len() > BRIEF_BYTES {
        decode_utf8(bytes.take(BRIEF_BYTES as int)) + "..."@
    } else {
        one_line(sql)
    }
}

/// Whether the statement has a brief form.
pub fn can_brief(sql: &str) -> (r: bool)
    ensures
        r == has_brief(sql@),
{
    let ws = words_of(sql);
    let one = joined(&ws, " ");
    one.as_str().as_bytes().len() <= BRIEF_BYTES || one.as_str().is_char_boundary(BRIEF_BYTES)
}

/// The brief form of a statement.
pub fn sql_brief(sql: &str) -> (out: String)
    requires
        has_brief(sql@),
    ensures
        out@ == brief(sql@),
{
    let ws = words_of(sql);
    let one = joined(&ws, " ");
    if one.as_str().as_bytes().len() <= BRIEF_BYTES {
        return one;
    }
    let head = one.as_str().split_at(BRIEF_BYTES).0;
    proof {
        encode_utf8_decode_utf8(head@);
    }
    let mut out = copy_text(head);
    out.append("...");
    out
}

/// Whether the log line of an event can be written.
pub open spec fn has_line(event: LogEvent) -> bool {
    event matches LogEvent::Exec { sql, .. } ==> has_brief(sql@)
}

/// The log line of an event.
pub open spec fn event_line(event: LogEvent) -> Seq<char> {
    match event {
        LogEvent::Queued { id } => "sqlite_broker_event=queued session="@ + decimal(id as nat),
        LogEvent::Exec { id, autocommit, sql } => "sqlite_broker_event=exec session="@ + decimal(
            id as nat,
        ) + " autocommit="@ + decimal(
            if autocommit {
                1
            } else {
                0
            },
        ) + " sql="@ + brief(sql@),
        LogEvent::Release { id } => "sqlite_broker_event=release session="@ + decimal(id as nat),
    }
}

/// The log line of an event.
pub fn event_text(event: &LogEvent) -> (out: String)
    requires
        has_line(*event),
    ensures
        out@ == event_line(*event),
{
    match event {
        LogEvent::Queued { id } => {
            let mut out = copy_text("sqlite_broker_event=queued session=");
            out.append(u64_text(*id).as_str());
            out
        },
        LogEvent::Exec { id, autocommit, sql } => {
            let mut out = copy_text("sqlite_broker_event=exec session=");
            out.append(u64_text(*id).as_str());
            out.append(" autocommit=");
            out.append(
                u64_text(
                    if *autocommit {
                        1
                    } else {
                        0
                    },
                ).as_str(),
            );
            out.append(" sql=");
            out.append(sql_brief(sql.as_str()).as_str());
            out
        },
        LogEvent::Release { id } => {
            let mut out = copy_text("sqlite_broker_event=release session=");
            out.append(u64_text(*id).as_str());
            out
        },
    }
}

// --------------------------------------------------------------- startup

/// How often opening the file is tried.
pub const OPEN_TRIES: u32 = 50;

/// How long to wait between two tries, in milliseconds.
pub const OPEN_PAUSE_MS: u64 = 20;

/// Whether a failure to open says that somebody else has the file.
pub open spec fn says_busy(message: Seq<char>) -> bool {
    contains(lower(message), "locked"@) || contains(lower(message), "busy"@)
}

/// What to do after a try.
#[derive(Debug)]
pub enum OpenStep {
    /// Wait, and try again.
    Retry,
    /// Give up.
    Fail { message: String },
}

/// The tries to open the file.
#[derive(Debug)]
pub struct OpenTries {
    pub failed: u32,
}

impl OpenTries {
    /// Before the first try.
    pub fn new() -> (t: OpenTries)
        ensures
            t.failed == 0,
    {
        OpenTries { failed: 0 }
    }

    /// A try failed: while the file is only busy there is another, up to
    /// `OPEN_TRIES` in all; any other failure is final.
    pub fn failed(&mut self, message: String) -> (step: OpenStep)
        requires
            old(self).failed < OPEN_TRIES,
        ensures
            final(self).failed == old(self).failed + 1,
            step == if says_busy(message@) && old(self).failed + 1 < OPEN_TRIES {
                OpenStep::Retry
            } else {
                OpenStep::Fail { message }
            },
    {
        self.failed = self.failed + 1;
        let lower = lower_text(message.as_str());
        let busy = contains_text(lower.as_str(), "locked") || contains_text(
            lower.as_str(),
            "busy",
        );
        if busy && self.failed < OPEN_TRIES {
            OpenStep::Retry
        } else {
            OpenStep::Fail { message }
        }
    }
}

/// The address to publish in the stub: the advertised one, where there is one,
/// and else the one that the broker listens on.
pub fn published_address(bound: String, advertise: Option<String>) -> (out: String)
    ensures
        out == match advertise {
            Some(addr) => addr,
            None => bound,
        },
{
    match advertise {
        Some(addr) => addr,
        None => bound,
    }
}

/// The line that says that the broker is ready.
pub fn ready_line(addr: &str, stub: &str, storage: &str) -> (out: String)
    ensures
        out@ == "ready listen="@ + addr@ + " stub="@ + stub@ + " storage="@ + storage@,
{
    let mut out = copy_text("ready listen=");
    out.append(addr);
    out.append(" stub=");
    out.append(stub);
    out.append(" storage=");
    out.append(storage);
    out
}

// ---------------------------------------------------------------- client

/// Where the conversation with a client stands.
#[derive(Debug, Clone, Copy, PartialEq, Eq, Structural)]
pub enum ClientPhase {
    /// The session's connection is being opened.
    Opening,
    /// The greeting is being sent.
    Greeting,
    /// The next request is being read.
    Reading,
    /// The worker has the request.
    Waiting { is_close: bool },
    /// The answer is being sent.
    Answering { is_close: bool },
    /// The conversation is over.
    Over,
}

/// What happened in the conversation.
#[derive(Debug)]
pub enum ClientEvent {
    /// The session was opened, or why it was not; nothing where the worker is
    /// gone.
    Opened { outcome: Option<Result<(), String>> },
    /// A message was sent, or could not be.
    Sent { ok: bool },
    /// A request came; nothing where the client is gone.
    Came { request: Option<Request> },
    /// The worker answered; nothing where it is gone.
    Answered { response: Option<Response> },
}

/// What to do next in the conversation.
#[derive(Debug)]
pub enum ClientAction {
    /// Send the greeting.
    Greet { hello: Hello },
    /// Send the greeting and end the conversation.
    Refuse { hello: Hello },
    /// Read the next request.
    Read,
    /// Hand the request to the worker.
    Submit { request: Request },
    /// Send the answer.
    Answer { response: Response },
    /// Have the worker forget the session, and end the conversation.
    DropSession,
    /// End the conversation.
    Stop,
    /// The event does not belong here.
    Unexpected,
}

/// What an event does in the conversation with the client of session `id`.
pub open spec fn client_step(phase: ClientPhase, id: u64, event: ClientEvent) -> (
    ClientPhase,
    ClientAction,
) {
    match (phase, event) {
        (ClientPhase::Opening, ClientEvent::Opened { outcome: Some(Ok(_)) }) => (
            ClientPhase::Greeting,
            ClientAction::Greet { hello: Hello { ok: true, session: id, error: None } },
        ),
        (ClientPhase::Opening, ClientEvent::Opened { outcome: Some(Err(why)) }) => (
            ClientPhase::Over,
            ClientAction::Refuse { hello: Hello { ok: false, session: id, error: Some(why) } },
        ),
        (ClientPhase::Opening, ClientEvent::Opened { outcome: None }) => (
            ClientPhase::Over,
            ClientAction::Stop,
        ),
        (ClientPhase::Greeting, ClientEvent::Sent { ok }) => if ok {
            (ClientPhase::Reading, ClientAction::Read)
        } else {
            (ClientPhase::Over, ClientAction::DropSession)
        },
        (ClientPhase::Reading, ClientEvent::Came { request: Some(request) }) => (
            ClientPhase::Waiting { is_close: request is Close },
            ClientAction::Submit { request },
        ),
        (ClientPhase::Reading, ClientEvent::Came { request: None }) => (
            ClientPhase::Over,
            ClientAction::DropSession,
        ),
        (
            ClientPhase::Waiting { is_close },
            ClientEvent::Answered { response: Some(response) },
        ) => (ClientPhase::Answering { is_close }, ClientAction::Answer { response }),
        (ClientPhase::Waiting { .. }, ClientEvent::Answered { response: None }) => (
            ClientPhase::Over,
            ClientAction::Stop,
        ),
        (ClientPhase::Answering { is_close }, ClientEvent::Sent { ok }) => if is_close {
            (ClientPhase::Over, ClientAction::Stop)
        } else if ok {
            (ClientPhase::Reading, ClientAction::Read)
        } else {
            (ClientPhase::Over, ClientAction::DropSession)
        },
        _ => (phase, ClientAction::Unexpected),
    }
}

/// The conversation with one client.
#[derive(Debug)]
pub struct ClientLoop {
    pub id: u64,
    pub phase: ClientPhase,
}

impl ClientLoop {
    /// A conversation whose session is being opened.
    pub fn new(id: u64) -> (c: ClientLoop)
        ensures
            c.id == id,
            c.phase == ClientPhase::Opening,
    {
        ClientLoop { id, phase: ClientPhase::Opening }
    }

    /// Takes an event and says what to do.
    pub fn step(&mut self, event: ClientEvent) -> (action: ClientAction)
        ensures
            final(self).id == old(self).id,
            (final(self).phase, action) == client_step(old(self).phase, old(self).id, event),
    {
        match (self.phase, event) {
            (ClientPhase::Opening, ClientEvent::Opened { outcome }) => match outcome {
                Some(Ok(_)) => {
                    self.phase = ClientPhase::Greeting;
                    ClientAction::Greet { hello: Hello { ok: true, session: self.id, error: None } }
                },
                Some(Err(why)) => {
                    self.phase = ClientPhase::Over;
                    ClientAction::Refuse {
                        hello: Hello { ok: false, session: self.id, error: Some(why) },
                    }
                },
                None => {
                    self.phase = ClientPhase::Over;
                    ClientAction::Stop
                },
            },
            (ClientPhase::Greeting, ClientEvent::Sent { ok }) => {
                if ok {
                    self.phase = ClientPhase::Reading;
                    ClientAction::Read
                } else {
                    self.phase = ClientPhase::Over;
                    ClientAction::DropSession
                }
            },
            (ClientPhase::Reading, ClientEvent::Came { request }) => match request {
                Some(request) => {
                    let is_close = matches!(request, Request::Close);
                    self.phase = ClientPhase::Waiting { is_close };
                    ClientAction::Submit { request }
                },
                None => {
                    self.phase = ClientPhase::Over;
                    ClientAction::DropSession
                },
            },
            (ClientPhase::Waiting { is_close }, ClientEvent::Answered { response }) => match response {
                Some(response) => {
                    self.phase = ClientPhase::Answering { is_close };
                    ClientAction::Answer { response }
                },
                None => {
                    self.phase = ClientPhase::Over;
                    ClientAction::Stop
                },
            },
            (ClientPhase::Answering { is_close }, ClientEvent::Sent { ok }) => {
                if is_close {
                    self.phase = ClientPhase::Over;
                    ClientAction::Stop
                } else if ok {
                    self.phase = ClientPhase::Reading;
                    ClientAction::Read
                } else {
                    self.phase = ClientPhase::Over;
                    ClientAction::DropSession
                }
            },
            _ => ClientAction::Unexpected,
        }
    }
}

/// A conversation that ends while its session is open has the session dropped,
/// unless the worker is gone or has closed the session already.
pub proof fn no_session_is_left_behind(phase: ClientPhase, id: u64, event: ClientEvent)
    requires
        client_step(phase, id, event).0 is Over,
        !(phase is Over),
        !(phase is Opening),
    ensures
        ({
            ||| client_step(phase, id, event).1 is DropSession
            ||| phase matches ClientPhase::Answering { is_close } && is_close
            ||| event == (ClientEvent::Answered { response: None })
        }),
{
}

/// Opening is tried again while the file is only busy, in whatever case that is
/// said.
pub proof fn a_busy_file_is_tried_again(a: Seq<char>, said: Seq<char>, b: Seq<char>)
    requires
        lower(said) == "locked"@ || lower(said) == "busy"@,
    ensures
        says_busy(a + said + b),
{
    assert(lower(a + said + b) == lower(a) + lower(said) + lower(b));
    what_stands_in_a_text_is_found(lower(a), lower(said), lower(b));
}

/// A statement is logged on one line, whole if it is short; of a long one the
/// first bytes are, and three dots.
pub proof fn a_statement_is_logged_briefly(sql: Seq<char>)
    ensures
        encode_utf8(join(words(sql), " "@)).len() <= 120 ==> brief(sql) == join(words(sql), " "@),
        encode_utf8(join(words(sql), " "@)).len() > 120 ==> brief(sql) == decode_utf8(
            encode_utf8(join(words(sql), " "@)).take(120),
        ) + "..."@,
{
}

/// The log names the session, and of a statement that ran also whether a
/// transaction is open and what ran.
pub proof fn the_log_names_the_session(id: u64, autocommit: bool, sql: String)
    ensures
        event_line(LogEvent::Queued { id }) == "sqlite_broker_event=queued session="@ + decimal(
            id as nat,
        ),
        event_line(LogEvent::Release { id }) == "sqlite_broker_event=release session="@ + decimal(
            id as nat,
        ),
        event_line(LogEvent::Exec { id, autocommit, sql })
            == "sqlite_broker_event=exec session="@ + decimal(id as nat) + " autocommit="@
            + if autocommit {
            "1"@
        } else {
            "0"@
        } + " sql="@ + brief(sql@),
{
    reveal_strlit("0");
    reveal_strlit("1");
    assert(decimal(0) =~= "0"@);
    assert(decimal(1) =~= "1"@);
}

/// A busy file is tried for a second: fifty times, with a fiftieth of a second
/// between two tries.
pub proof fn a_busy_file_is_tried_for_a_second()
    ensures
        OPEN_TRIES == 50,
        OPEN_TRIES * OPEN_PAUSE_MS == 1000,
{
}

} // verus!
