//! The server of a session: it keeps the terminal of an application up to date
//! and answers the requests of clients, one at a time.
//!
//! The server decides; the program around it acts. Each step takes what came of
//! the last action and gives the next one.

use vstd::prelude::*;
use crate::frame::Frame;
use crate::recording::{Entry, EntryView, InputOrigin, Writer, WriterView};
use crate::replay::replayed;
use crate::session::{Captured, CapturedView, Request, RequestView, Response, ResponseView};
use crate::session::{Options, SessionError, SessionFault, MAX_REQUEST_BYTES};
use crate::terminal::{from_screen, takes, terminal, Terminal, TerminalView};
use crate::text::{chunks, contains, copy_bytes, occurs};

verus! {

/// How many chunks of output are taken in before anything else is done.
pub const OUTPUT_BATCH: usize = 32;

/// How long the server pauses when there is nothing to do.
pub const IDLE_MS: u64 = 10;

/// How long a client may take to send its request or to read the answer.
pub const CONTROL_TIMEOUT_MS: u64 = 2000;

// -------------------------------------------------------------- transcript

/// The last bytes of a sequence, no more than some number.
pub open spec fn latest(bytes: Seq<u8>, most: nat) -> Seq<u8> {
    if bytes.len() <= most {
        bytes
    } else {
        bytes.skip(bytes.len() - most)
    }
}

proof fn lemma_latest_concat(a: Seq<u8>, b: Seq<u8>, most: nat)
    ensures
        latest(latest(a, most) + b, most) == latest(a + b, most),
{
    assert(latest(latest(a, most) + b, most) =~= latest(a + b, most));
}

/// The most recent output of an application, up to a limit.
pub struct Transcript {
    kept: Vec<u8>,
    max_bytes: usize,
}

/// A transcript as a mathematical value.
pub struct TranscriptView {
    pub bytes: Seq<u8>,
    pub max_bytes: usize,
}

impl View for Transcript {
    type V = TranscriptView;

    closed spec fn view(&self) -> TranscriptView {
        TranscriptView {
            bytes: latest(self.kept@, self.max_bytes as nat),
            max_bytes: self.max_bytes,
        }
    }
}

impl TranscriptView {
    /// The transcript after some more output.
    pub open spec fn after(self, bytes: Seq<u8>) -> TranscriptView {
        TranscriptView { bytes: latest(self.bytes + bytes, self.max_bytes as nat), ..self }
    }
}

impl Transcript {
    /// An empty transcript.
    pub fn new(max_bytes: usize) -> (transcript: Transcript)
        ensures
            transcript@ == (TranscriptView { bytes: Seq::empty(), max_bytes }),
    {
        let kept: Vec<u8> = Vec::new();
        assert(latest(kept@, max_bytes as nat) =~= Seq::<u8>::empty());
        Transcript { kept, max_bytes }
    }

    /// Adds some output; what exceeds the limit is lost from the front.
    pub fn retain(&mut self, bytes: &[u8])
        ensures
            final(self)@ == old(self)@.after(bytes@),
    {
        let ghost before = self.kept@;
        let ghost most = self.max_bytes as nat;
        proof {
            lemma_latest_concat(before, bytes@, most);
        }
        self.kept.extend_from_slice(bytes);
        assert(self.kept@ =~= before + bytes@);
        if self.kept.len() > self.max_bytes && self.kept.len() - self.max_bytes > self.max_bytes {
            let lost = self.kept.len() - self.max_bytes;
            let ghost whole = self.kept@;
            self.kept = self.kept.split_off(lost);
            assert(latest(self.kept@, most) =~= latest(whole, most));
        }
    }

    /// A copy of the kept bytes.
    pub fn bytes(&self) -> (bytes: Vec<u8>)
        ensures
            bytes@ == self@.bytes,
    {
        if self.kept.len() <= self.max_bytes {
            copy_bytes(self.kept.as_slice())
        } else {
            let start = self.kept.len() - self.max_bytes;
            let bytes = copy_bytes(
                vstd::slice::slice_subrange(self.kept.as_slice(), start, self.kept.len()),
            );
            assert(bytes@ =~= self@.bytes);
            bytes
        }
    }
}

// -------------------------------------------------------- actions and events

/// What the program around the server has to do next.
#[derive(Debug, PartialEq, Eq)]
pub enum Action {
    /// Take the next chunk of output, if there is one.
    Receive,
    /// Write an entry of the recording.
    Record(Entry),
    /// Let the terminal host answer the queries in some output.
    Answer(Vec<u8>),
    /// Type some input into the application.
    Type(Vec<u8>),
    /// Pause.
    Sleep(u64),
    /// Accept a client, if there is one.
    Accept,
    /// Read a request, no more than one byte past the limit.
    ReadRequest,
    /// Parse the bytes of a request.
    ParseRequest(Vec<u8>),
    /// Send an answer to the client.
    Reply(Response),
    /// The session is over.
    Exit(Result<(), SessionError>),
}

/// What the program around the server has to do next, as a mathematical value.
pub enum ActionView {
    Receive,
    Record(EntryView),
    Answer(Seq<u8>),
    Type(Seq<u8>),
    Sleep(u64),
    Accept,
    ReadRequest,
    ParseRequest(Seq<u8>),
    Reply(ResponseView),
    Exit(Result<(), SessionFault>),
}

impl View for Action {
    type V = ActionView;

    open spec fn view(&self) -> ActionView {
        match *self {
            Action::Receive => ActionView::Receive,
            Action::Record(entry) => ActionView::Record(entry@),
            Action::Answer(bytes) => ActionView::Answer(bytes@),
            Action::Type(bytes) => ActionView::Type(bytes@),
            Action::Sleep(ms) => ActionView::Sleep(ms),
            Action::Accept => ActionView::Accept,
            Action::ReadRequest => ActionView::ReadRequest,
            Action::ParseRequest(bytes) => ActionView::ParseRequest(bytes@),
            Action::Reply(response) => ActionView::Reply(response@),
            Action::Exit(Ok(done)) => ActionView::Exit(Ok(done)),
            Action::Exit(Err(error)) => ActionView::Exit(Err(error@)),
        }
    }
}

/// What came of an action.
#[derive(Debug, PartialEq, Eq)]
pub enum Event {
    /// A chunk of output and when it came.
    Output { at_ms: u64, bytes: Vec<u8> },
    /// There is nothing to take or to accept.
    Nothing,
    /// There will be no more output.
    Closed,
    /// The action succeeded.
    Done,
    /// What the terminal host answered.
    Answered(Vec<u8>),
    /// The bytes of a request.
    Bytes(Vec<u8>),
    /// A request could not be read.
    Unread(String),
    /// A request.
    Request(Request),
    /// The bytes were no request.
    Unparsed(String),
    /// The action failed.
    Failed(String),
}

/// What came of an action, as a mathematical value.
pub enum EventView {
    Output { at_ms: u64, bytes: Seq<u8> },
    Nothing,
    Closed,
    Done,
    Answered(Seq<u8>),
    Bytes(Seq<u8>),
    Unread(Seq<char>),
    Request(RequestView),
    Unparsed(Seq<char>),
    Failed(Seq<char>),
}

impl View for Event {
    type V = EventView;

    open spec fn view(&self) -> EventView {
        match *self {
            Event::Output { at_ms, bytes } => EventView::Output { at_ms, bytes: bytes@ },
            Event::Nothing => EventView::Nothing,
            Event::Closed => EventView::Closed,
            Event::Done => EventView::Done,
            Event::Answered(bytes) => EventView::Answered(bytes@),
            Event::Bytes(bytes) => EventView::Bytes(bytes@),
            Event::Unread(cause) => EventView::Unread(cause@),
            Event::Request(request) => EventView::Request(request@),
            Event::Unparsed(cause) => EventView::Unparsed(cause@),
            Event::Failed(cause) => EventView::Failed(cause@),
        }
    }
}

// ------------------------------------------------------------------- model

/// What the server takes in output for.
#[derive(Debug, PartialEq, Eq)]
pub enum Job {
    /// For no client.
    Poll,
    /// Between two pieces of input.
    Send { input: Vec<Vec<u8>>, pace_ms: u64, next: usize },
    /// Until the screen shows a text.
    Wait { text: String, since_ms: u64, timeout_ms: u64 },
    /// Until the output has settled.
    Snapshot { since_ms: u64, settle_ms: u64, deadline_ms: u64 },
}

/// What the server takes in output for, as a mathematical value.
pub enum JobView {
    Poll,
    Send { input: Seq<Seq<u8>>, pace_ms: u64, next: nat },
    Wait { text: Seq<char>, since_ms: u64, timeout_ms: u64 },
    Snapshot { since_ms: u64, settle_ms: u64, deadline_ms: u64 },
}

impl View for Job {
    type V = JobView;

    open spec fn view(&self) -> JobView {
        match *self {
            Job::Poll => JobView::Poll,
            Job::Send { input, pace_ms, next } => JobView::Send {
                input: chunks(input@),
                pace_ms,
                next: next as nat,
            },
            Job::Wait { text, since_ms, timeout_ms } => JobView::Wait {
                text: text@,
                since_ms,
                timeout_ms,
            },
            Job::Snapshot { since_ms, settle_ms, deadline_ms } => JobView::Snapshot {
                since_ms,
                settle_ms,
                deadline_ms,
            },
        }
    }
}

/// What the server waits for. Output is taken in in four stages, `left` chunks
/// before the server turns to something else.
#[derive(Clone, Copy, Debug, PartialEq, Eq, Structural)]
pub enum Stage {
    /// The next chunk of output.
    Receiving { left: usize },
    /// The entry of the chunk in the recording.
    RecordingOutput { left: usize },
    /// The answer of the terminal host to the chunk.
    Answering { left: usize },
    /// The entry of that answer in the recording.
    RecordingAnswer { left: usize },
    /// The end of a pause, after which output is taken in.
    Pausing,
    /// The next piece of input.
    Typing,
    /// The entry of that piece in the recording.
    RecordingTyped,
    /// A client.
    Accepting,
    /// The bytes of a request.
    Reading,
    /// The request behind the bytes.
    Parsing,
    /// The delivery of an answer, after which a session that was asked to
    /// close ends.
    Replying { close: bool },
    /// Nothing.
    Over,
}

/// A server as a mathematical value.
pub struct ServerView {
    pub terminal: TerminalView,
    pub transcript: TranscriptView,
    /// No more output will come.
    pub closed: bool,
    /// When the last output was taken in.
    pub last_output: Option<u64>,
    pub writer: Option<WriterView>,
    /// The chunk that is being taken in.
    pub chunk: Seq<u8>,
    pub job: JobView,
    pub stage: Stage,
}

/// Whether some time has passed since another.
pub open spec fn passed(since_ms: u64, now_ms: u64, time_ms: u64) -> bool {
    now_ms >= since_ms + time_ms
}

/// An answer without an error.
pub open spec fn success(captured: Option<CapturedView>) -> ResponseView {
    ResponseView { error: None, captured }
}

/// An answer that carries an error.
pub open spec fn failure(fault: SessionFault) -> ResponseView {
    ResponseView { error: Some(fault.told()), captured: None }
}

impl ServerView {
    /// The invariant of a server: its terminal can show what came and what is
    /// being taken in, and what it waits for fits what it does.
    pub open spec fn wf(self) -> bool {
        &&& self.sound()
        &&& match self.stage {
            Stage::Receiving { left } => 1 <= left <= OUTPUT_BATCH,
            Stage::RecordingOutput { left } => 1 <= left <= OUTPUT_BATCH && self.terminal.takes(
                self.chunk,
            ),
            Stage::Answering { left } => 1 <= left <= OUTPUT_BATCH && self.terminal.takes(
                self.chunk,
            ),
            Stage::RecordingAnswer { left } => 1 <= left <= OUTPUT_BATCH && self.terminal.takes(
                self.chunk,
            ),
            Stage::Typing | Stage::RecordingTyped => self.job is Send,
            Stage::Pausing => true,
            _ => self.job is Poll,
        }
    }

    /// The part of the invariant that holds at every stage.
    pub open spec fn sound(self) -> bool {
        &&& self.terminal.wf()
        &&& self.job matches JobView::Send { input, pace_ms, next } ==> next < input.len()
    }

    /// Whether an event answers what the server waits for. Output is such that
    /// the terminal can show it.
    pub open spec fn expects(self, event: EventView) -> bool {
        match self.stage {
            Stage::Receiving { left } => match event {
                EventView::Output { at_ms, bytes } => self.terminal.takes(bytes),
                _ => event is Nothing || event is Closed,
            },
            Stage::RecordingOutput { left } => event is Done || event is Failed,
            Stage::Answering { left } => event is Answered || event is Failed,
            Stage::RecordingAnswer { left } => event is Done || event is Failed,
            Stage::Pausing => event is Done,
            Stage::Typing => event is Done || event is Failed,
            Stage::RecordingTyped => event is Done || event is Failed,
            Stage::Accepting => event is Done || event is Nothing || event is Failed,
            Stage::Reading => event is Bytes || event is Unread || event is Failed,
            Stage::Parsing => event is Request || event is Unparsed,
            Stage::Replying { close } => event is Done || event is Failed,
            Stage::Over => false,
        }
    }

    /// A server that has just started: it begins to take in output.
    pub open spec fn opened(options: Options, writer: Option<WriterView>) -> ServerView {
        ServerView {
            terminal: TerminalView { rows: options.rows, cols: options.cols, fed: Seq::empty() },
            transcript: TranscriptView { bytes: Seq::empty(), max_bytes: options.max_bytes },
            closed: false,
            last_output: None,
            writer,
            chunk: Seq::empty(),
            job: JobView::Poll,
            stage: Stage::Receiving { left: OUTPUT_BATCH },
        }
    }

    /// The same server at another stage.
    pub open spec fn at(self, stage: Stage) -> ServerView {
        ServerView { stage, ..self }
    }

    /// The screen and the transcript as they are.
    pub open spec fn captured(self) -> CapturedView {
        CapturedView { frame: self.terminal.frame(), ansi: self.transcript.bytes }
    }

    /// The server after it has shown and kept the chunk.
    pub open spec fn absorbed(self, now_ms: u64) -> ServerView {
        ServerView {
            terminal: self.terminal.after(self.chunk),
            transcript: self.transcript.after(self.chunk),
            last_output: Some(now_ms),
            chunk: Seq::empty(),
            ..self
        }
    }

    /// Ends the session.
    pub open spec fn exit(self, result: Result<(), SessionFault>) -> (ServerView, ActionView) {
        (
            ServerView { job: JobView::Poll, stage: Stage::Over, ..self },
            ActionView::Exit(result),
        )
    }

    /// Answers the client.
    pub open spec fn reply(self, response: ResponseView, close: bool) -> (ServerView, ActionView) {
        (
            ServerView { job: JobView::Poll, stage: Stage::Replying { close }, ..self },
            ActionView::Reply(response),
        )
    }

    /// Begins to take in output.
    pub open spec fn consume(self) -> (ServerView, ActionView) {
        (self.at(Stage::Receiving { left: OUTPUT_BATCH }), ActionView::Receive)
    }

    /// Pauses, to take in output afterwards.
    pub open spec fn pause(self, ms: u64) -> (ServerView, ActionView) {
        (self.at(Stage::Pausing), ActionView::Sleep(ms))
    }

    /// Types the next piece of input, or answers where none is left.
    pub open spec fn type_next(self) -> (ServerView, ActionView) {
        match self.job {
            JobView::Send { input, pace_ms, next } => if next < input.len() {
                (self.at(Stage::Typing), ActionView::Type(input[next as int]))
            } else {
                self.reply(success(None), false)
            },
            _ => self.reply(success(None), false),
        }
    }

    /// The server once a piece of input is typed: at a pace it pauses and takes
    /// in output before the next piece, but not after the last.
    pub open spec fn typed(self) -> (ServerView, ActionView) {
        match self.job {
            JobView::Send { input, pace_ms, next } => if pace_ms > 0 && next + 1 < input.len() {
                self.pause(pace_ms)
            } else {
                (ServerView {
                    job: JobView::Send { input, pace_ms, next: next + 1 },
                    ..self
                }).type_next()
            },
            _ => self.reply(success(None), false),
        }
    }

    /// What the server does once output is taken in.
    pub open spec fn consumed(self, now_ms: u64) -> (ServerView, ActionView) {
        match self.job {
            JobView::Poll => (self.at(Stage::Accepting), ActionView::Accept),
            JobView::Send { input, pace_ms, next } => (ServerView {
                job: JobView::Send { input, pace_ms, next: next + 1 },
                ..self
            }).type_next(),
            JobView::Wait { text, since_ms, timeout_ms } => if occurs(self.terminal.text(), text) {
                self.reply(success(None), false)
            } else if self.closed {
                self.reply(failure(SessionFault::EndedBefore(text)), false)
            } else if passed(since_ms, now_ms, timeout_ms) {
                self.reply(failure(SessionFault::WaitTimeout(text)), false)
            } else {
                self.pause(IDLE_MS)
            },
            JobView::Snapshot { since_ms, settle_ms, deadline_ms } => if self.closed || settled(
                self.last_output.unwrap_or(since_ms),
                now_ms,
                settle_ms,
            ) || passed(since_ms, now_ms, deadline_ms) {
                self.reply(success(Some(self.captured())), false)
            } else {
                self.pause(IDLE_MS)
            },
        }
    }

    /// What the server does when something fails while output is taken in or
    /// input is typed: a client is told; without one the session ends.
    pub open spec fn failed(self, cause: Seq<char>) -> (ServerView, ActionView) {
        match self.job {
            JobView::Poll => self.exit(Err(SessionFault::Outside(cause))),
            _ => self.reply(failure(SessionFault::Outside(cause)), false),
        }
    }

    /// Lets the terminal host answer the chunk.
    pub open spec fn answer(self, left: usize) -> (ServerView, ActionView) {
        (self.at(Stage::Answering { left }), ActionView::Answer(self.chunk))
    }

    /// Shows and keeps the chunk, and takes the next one while any are left.
    pub open spec fn absorb(self, now_ms: u64, left: usize) -> (ServerView, ActionView) {
        let next = self.absorbed(now_ms);
        if left <= 1 {
            next.consumed(now_ms)
        } else {
            (next.at(Stage::Receiving { left: (left - 1) as usize }), ActionView::Receive)
        }
    }

    /// Writes an entry of the recording.
    pub open spec fn record(self, entry: EntryView, stage: Stage) -> (ServerView, ActionView) {
        (
            ServerView { writer: Some(self.writer.unwrap().after(entry)), stage, ..self },
            ActionView::Record(entry),
        )
    }

    /// Begins to do what a client asks.
    pub open spec fn respond(self, now_ms: u64, request: RequestView) -> (ServerView, ActionView) {
        match request {
            RequestView::Ping => self.reply(success(None), false),
            RequestView::Close => self.reply(success(None), true),
            RequestView::Send { input, pace_ms } => if self.closed {
                self.reply(failure(SessionFault::CommandExited), false)
            } else {
                (ServerView {
                    job: JobView::Send { input, pace_ms, next: 0 },
                    ..self
                }).type_next()
            },
            RequestView::Wait { text, timeout_ms } => (ServerView {
                job: JobView::Wait { text, since_ms: now_ms, timeout_ms },
                ..self
            }).consume(),
            RequestView::Snapshot { settle_ms, deadline_ms } => (ServerView {
                job: JobView::Snapshot { since_ms: now_ms, settle_ms, deadline_ms },
                ..self
            }).consume(),
        }
    }

    /// What the server does next, given what came of its last action.
    pub open spec fn step(self, now_ms: u64, event: EventView) -> (ServerView, ActionView) {
        match self.stage {
            Stage::Receiving { left } => match event {
                EventView::Output { at_ms, bytes } => {
                    let next = ServerView { chunk: bytes, ..self };
                    if self.writer is Some {
                        next.record(
                            EntryView::Output { at_ms, bytes },
                            Stage::RecordingOutput { left },
                        )
                    } else {
                        next.answer(left)
                    }
                },
                EventView::Closed => (ServerView { closed: true, ..self }).consumed(now_ms),
                _ => self.consumed(now_ms),
            },
            Stage::RecordingOutput { left } => match event {
                EventView::Failed(cause) => self.failed(cause),
                _ => self.answer(left),
            },
            Stage::Answering { left } => match event {
                EventView::Failed(cause) => self.failed(cause),
                EventView::Answered(answer) => match self.writer {
                    Some(writer) if answer.len() > 0 => self.record(
                        writer.input(now_ms, InputOrigin::Host, answer),
                        Stage::RecordingAnswer { left },
                    ),
                    _ => self.absorb(now_ms, left),
                },
                _ => self.absorb(now_ms, left),
            },
            Stage::RecordingAnswer { left } => match event {
                EventView::Failed(cause) => self.failed(cause),
                _ => self.absorb(now_ms, left),
            },
            Stage::Pausing => self.consume(),
            Stage::Typing => match event {
                EventView::Failed(cause) => self.failed(cause),
                _ => match (self.writer, self.job) {
                    (Some(writer), JobView::Send { input, pace_ms, next }) => self.record(
                        writer.input(now_ms, InputOrigin::Client, input[next as int]),
                        Stage::RecordingTyped,
                    ),
                    _ => self.typed(),
                },
            },
            Stage::RecordingTyped => match event {
                EventView::Failed(cause) => self.failed(cause),
                _ => self.typed(),
            },
            Stage::Accepting => match event {
                EventView::Done => (self.at(Stage::Reading), ActionView::ReadRequest),
                EventView::Failed(cause) => self.exit(Err(SessionFault::Outside(cause))),
                _ => self.pause(IDLE_MS),
            },
            Stage::Reading => match event {
                EventView::Bytes(bytes) => if bytes.len() > MAX_REQUEST_BYTES {
                    self.reply(failure(SessionFault::RequestTooLong), false)
                } else {
                    (self.at(Stage::Parsing), ActionView::ParseRequest(bytes))
                },
                EventView::Unread(cause) => self.reply(
                    failure(SessionFault::UnreadRequest(cause)),
                    false,
                ),
                EventView::Failed(cause) => self.exit(Err(SessionFault::Outside(cause))),
                _ => self.exit(Ok(())),
            },
            Stage::Parsing => match event {
                EventView::Request(request) => self.respond(now_ms, request),
                EventView::Unparsed(cause) => self.reply(
                    failure(SessionFault::InvalidRequest(cause)),
                    false,
                ),
                _ => self.exit(Ok(())),
            },
            Stage::Replying { close } => if close && event is Done {
                self.exit(Ok(()))
            } else {
                self.consume()
            },
            Stage::Over => self.exit(Ok(())),
        }
    }
}

/// Whether output has settled: nothing has come for some time.
pub open spec fn settled(last_ms: u64, now_ms: u64, settle_ms: u64) -> bool {
    if now_ms >= last_ms {
        now_ms - last_ms >= settle_ms
    } else {
        settle_ms == 0
    }
}

// ------------------------------------------------------------------ server

/// The server of one session.
pub struct Server {
    terminal: Terminal,
    transcript: Transcript,
    closed: bool,
    last_output: Option<u64>,
    writer: Option<Writer>,
    chunk: Vec<u8>,
    job: Job,
    stage: Stage,
}

impl View for Server {
    type V = ServerView;

    closed spec fn view(&self) -> ServerView {
        ServerView {
            terminal: self.terminal@,
            transcript: self.transcript@,
            closed: self.closed,
            last_output: self.last_output,
            writer: match self.writer {
                Some(writer) => Some(writer@),
                None => None,
            },
            chunk: self.chunk@,
            job: self.job@,
            stage: self.stage,
        }
    }
}

/// An answer without an error.
fn succeed(captured: Option<Captured>) -> (response: Response)
    ensures
        captured matches Some(screen) ==> response@ == success(Some(screen@)),
        captured is None ==> response@ == success(None),
{
    Response { error: None, captured }
}

/// An answer that carries an error.
fn refuse(error: &SessionError) -> (response: Response)
    ensures
        response@ == failure(error@),
{
    Response { error: Some(error.message()), captured: None }
}

impl Server {
    /// The invariant of a server.
    pub open spec fn wf(self) -> bool {
        self@.wf() && self.noted()
    }

    /// The terminal knows where its stream stands.
    pub closed spec fn noted(self) -> bool {
        self.terminal.noted()
    }

    /// Whether the terminal can show a chunk of output.
    pub fn takes(&self, bytes: &[u8]) -> (taken: bool)
        requires
            self.wf(),
        ensures
            taken == self@.terminal.takes(bytes@),
    {
        self.terminal.takes(bytes)
    }

    /// A server for a terminal of some size, whose output goes to a recording
    /// where there is one. Its first action is to take in output.
    pub fn new(options: &Options, writer: Option<Writer>) -> (started: (Server, Action))
        requires
            options.rows > 0,
            options.cols > 0,
        ensures
            started.0.wf(),
            started.0@ == ServerView::opened(
                *options,
                match writer {
                    Some(writer) => Some(writer@),
                    None => None,
                },
            ),
            started.1@ == ActionView::Receive,
    {
        let server = Server {
            terminal: terminal(options.rows, options.cols),
            transcript: Transcript::new(options.max_bytes),
            closed: false,
            last_output: None,
            writer,
            chunk: Vec::new(),
            job: Job::Poll,
            stage: Stage::Receiving { left: OUTPUT_BATCH },
        };
        assert(server.chunk@ =~= Seq::<u8>::empty());
        (server, Action::Receive)
    }

    fn exit(&mut self, result: Result<(), SessionError>) -> (action: Action)
        ensures
            old(self).noted() ==> final(self).noted(),
            result matches Ok(done) ==> (final(self)@, action@) == old(self)@.exit(Ok(done)),
            result matches Err(error) ==> (final(self)@, action@) == old(self)@.exit(Err(error@)),
    {
        self.job = Job::Poll;
        self.stage = Stage::Over;
        Action::Exit(result)
    }

    fn reply(&mut self, response: Response, close: bool) -> (action: Action)
        ensures
            old(self).noted() ==> final(self).noted(),
            (final(self)@, action@) == old(self)@.reply(response@, close),
    {
        self.job = Job::Poll;
        self.stage = Stage::Replying { close };
        Action::Reply(response)
    }

    fn consume(&mut self) -> (action: Action)
        ensures
            old(self).noted() ==> final(self).noted(),
            (final(self)@, action@) == old(self)@.consume(),
    {
        self.stage = Stage::Receiving { left: OUTPUT_BATCH };
        Action::Receive
    }

    fn pause(&mut self, ms: u64) -> (action: Action)
        ensures
            old(self).noted() ==> final(self).noted(),
            (final(self)@, action@) == old(self)@.pause(ms),
    {
        self.stage = Stage::Pausing;
        Action::Sleep(ms)
    }

    fn type_next(&mut self) -> (action: Action)
        ensures
            old(self).noted() ==> final(self).noted(),
            (final(self)@, action@) == old(self)@.type_next(),
    {
        let piece: Option<Vec<u8>> = match &self.job {
            Job::Send { input, pace_ms, next } => if *next < input.len() {
                Some(copy_bytes(input[*next].as_slice()))
            } else {
                None
            },
            _ => None,
        };
        match piece {
            Some(bytes) => {
                self.stage = Stage::Typing;
                Action::Type(bytes)
            },
            None => self.reply(succeed(None), false),
        }
    }

    fn typed(&mut self) -> (action: Action)
        requires
            old(self)@.sound(),
            old(self).noted(),
        ensures
            old(self).noted() ==> final(self).noted(),
            (final(self)@, action@) == old(self)@.typed(),
    {
        let wait: Option<u64> = match &self.job {
            Job::Send { input, pace_ms, next } => if *pace_ms > 0 && input.len() - *next > 1 {
                Some(*pace_ms)
            } else {
                None
            },
            _ => None,
        };
        match wait {
            Some(pace_ms) => self.pause(pace_ms),
            None => self.advance(),
        }
    }

    /// Goes on to the next piece of input.
    fn advance(&mut self) -> (action: Action)
        requires
            old(self)@.sound(),
            old(self).noted(),
        ensures
            old(self).noted() ==> final(self).noted(),
            old(self)@.job matches JobView::Send { input, pace_ms, next } ==> (
                final(self)@,
                action@,
            ) == (ServerView {
                job: JobView::Send { input, pace_ms, next: next + 1 },
                ..old(self)@
            }).type_next(),
            !(old(self)@.job is Send) ==> (final(self)@, action@) == old(self)@.reply(
                success(None),
                false,
            ),
    {
        match &mut self.job {
            Job::Send { input, pace_ms, next } => {
                let count: usize = input.len();
                assert(*next < count);
                *next = *next + 1;
            },
            _ => {},
        }
        self.type_next()
    }

    fn consumed(&mut self, now_ms: u64) -> (action: Action)
        requires
            old(self)@.sound(),
            old(self).noted(),
        ensures
            old(self).noted() ==> final(self).noted(),
            (final(self)@, action@) == old(self)@.consumed(now_ms),
    {
        match &self.job {
            Job::Poll => {
                self.stage = Stage::Accepting;
                Action::Accept
            },
            Job::Send { input, pace_ms, next } => self.advance(),
            Job::Wait { text, since_ms, timeout_ms } => {
                if contains(self.terminal.text().as_str(), text.as_str()) {
                    self.reply(succeed(None), false)
                } else if self.closed {
                    let response = refuse(&SessionError::EndedBefore(text.clone()));
                    self.reply(response, false)
                } else if has_passed(*since_ms, now_ms, *timeout_ms) {
                    let response = refuse(&SessionError::WaitTimeout(text.clone()));
                    self.reply(response, false)
                } else {
                    self.pause(IDLE_MS)
                }
            },
            Job::Snapshot { since_ms, settle_ms, deadline_ms } => {
                let last_ms: u64 = match self.last_output {
                    Some(last_ms) => last_ms,
                    None => *since_ms,
                };
                if self.closed || has_settled(last_ms, now_ms, *settle_ms) || has_passed(
                    *since_ms,
                    now_ms,
                    *deadline_ms,
                ) {
                    let captured = self.capture();
                    self.reply(succeed(Some(captured)), false)
                } else {
                    self.pause(IDLE_MS)
                }
            },
        }
    }

    /// The screen and the transcript as they are.
    fn capture(&self) -> (captured: Captured)
        requires
            self@.sound(),
        ensures
            captured@ == self@.captured(),
    {
        Captured { frame: from_screen(&self.terminal), ansi: self.transcript.bytes() }
    }

    fn failed(&mut self, cause: String) -> (action: Action)
        ensures
            old(self).noted() ==> final(self).noted(),
            (final(self)@, action@) == old(self)@.failed(cause@),
    {
        let error = SessionError::Outside(cause);
        let alone = match &self.job {
            Job::Poll => true,
            _ => false,
        };
        if alone {
            self.exit(Err(error))
        } else {
            let response = refuse(&error);
            self.reply(response, false)
        }
    }

    fn answer(&mut self, left: usize) -> (action: Action)
        ensures
            old(self).noted() ==> final(self).noted(),
            (final(self)@, action@) == old(self)@.answer(left),
    {
        self.stage = Stage::Answering { left };
        Action::Answer(copy_bytes(self.chunk.as_slice()))
    }

    fn absorb(&mut self, now_ms: u64, left: usize) -> (action: Action)
        requires
            old(self)@.sound(),
            old(self).noted(),
            old(self)@.terminal.takes(old(self)@.chunk),
        ensures
            old(self).noted() ==> final(self).noted(),
            (final(self)@, action@) == old(self)@.absorb(now_ms, left),
    {
        self.transcript.retain(self.chunk.as_slice());
        self.terminal.process(self.chunk.as_slice());
        self.last_output = Some(now_ms);
        self.chunk = Vec::new();
        assert(self.chunk@ =~= Seq::<u8>::empty());
        assert(self@ == old(self)@.absorbed(now_ms));
        if left <= 1 {
            self.consumed(now_ms)
        } else {
            self.stage = Stage::Receiving { left: left - 1 };
            Action::Receive
        }
    }

    fn respond(&mut self, now_ms: u64, request: Request) -> (action: Action)
        ensures
            old(self).noted() ==> final(self).noted(),
            (final(self)@, action@) == old(self)@.respond(now_ms, request@),
    {
        match request {
            Request::Ping => self.reply(succeed(None), false),
            Request::Close => self.reply(succeed(None), true),
            Request::Send { input, pace_ms } => {
                if self.closed {
                    let response = refuse(&SessionError::CommandExited);
                    self.reply(response, false)
                } else {
                    self.job = Job::Send { input, pace_ms, next: 0 };
                    self.type_next()
                }
            },
            Request::Wait { text, timeout_ms } => {
                self.job = Job::Wait { text, since_ms: now_ms, timeout_ms };
                self.consume()
            },
            Request::Snapshot { settle_ms, deadline_ms } => {
                self.job = Job::Snapshot { since_ms: now_ms, settle_ms, deadline_ms };
                self.consume()
            },
        }
    }

    /// Takes what came of the last action, and the time, and gives the next
    /// action.
    pub fn step(&mut self, now_ms: u64, event: Event) -> (action: Action)
        requires
            old(self).wf(),
            old(self)@.expects(event@),
        ensures
            (final(self)@, action@) == old(self)@.step(now_ms, event@),
            final(self).wf(),
    {
        proof {
            law_invariant_is_kept(self@, now_ms, event@);
        }
        match self.stage {
            Stage::Receiving { left } => match event {
                Event::Output { at_ms, bytes } => self.receive(at_ms, bytes, left),
                Event::Closed => {
                    self.closed = true;
                    self.consumed(now_ms)
                },
                _ => self.consumed(now_ms),
            },
            Stage::RecordingOutput { left } => match event {
                Event::Failed(cause) => self.failed(cause),
                _ => self.answer(left),
            },
            Stage::Answering { left } => match event {
                Event::Failed(cause) => self.failed(cause),
                Event::Answered(answer) => self.answered(now_ms, answer, left),
                _ => self.absorb(now_ms, left),
            },
            Stage::RecordingAnswer { left } => match event {
                Event::Failed(cause) => self.failed(cause),
                _ => self.absorb(now_ms, left),
            },
            Stage::Pausing => self.consume(),
            Stage::Typing => match event {
                Event::Failed(cause) => self.failed(cause),
                _ => self.record_typed(now_ms),
            },
            Stage::RecordingTyped => match event {
                Event::Failed(cause) => self.failed(cause),
                _ => self.typed(),
            },
            Stage::Accepting => match event {
                Event::Done => {
                    self.stage = Stage::Reading;
                    Action::ReadRequest
                },
                Event::Failed(cause) => self.exit(Err(SessionError::Outside(cause))),
                _ => self.pause(IDLE_MS),
            },
            Stage::Reading => match event {
                Event::Bytes(bytes) => {
                    if bytes.len() > MAX_REQUEST_BYTES {
                        let response = refuse(&SessionError::RequestTooLong);
                        self.reply(response, false)
                    } else {
                        self.stage = Stage::Parsing;
                        Action::ParseRequest(bytes)
                    }
                },
                Event::Unread(cause) => {
                    let response = refuse(&SessionError::UnreadRequest(cause));
                    self.reply(response, false)
                },
                Event::Failed(cause) => self.exit(Err(SessionError::Outside(cause))),
                _ => self.exit(Ok(())),
            },
            Stage::Parsing => match event {
                Event::Request(request) => self.respond(now_ms, request),
                Event::Unparsed(cause) => {
                    let response = refuse(&SessionError::InvalidRequest(cause));
                    self.reply(response, false)
                },
                _ => self.exit(Ok(())),
            },
            Stage::Replying { close } => {
                let sent = match event {
                    Event::Done => true,
                    _ => false,
                };
                if close && sent {
                    self.exit(Ok(()))
                } else {
                    self.consume()
                }
            },
            Stage::Over => self.exit(Ok(())),
        }
    }

    /// Takes a chunk of output.
    fn receive(&mut self, at_ms: u64, bytes: Vec<u8>, left: usize) -> (action: Action)
        requires
            old(self)@.stage == (Stage::Receiving { left }),
        ensures
            old(self).noted() ==> final(self).noted(),
            forall|now_ms: u64|
                (final(self)@, action@) == #[trigger] old(self)@.step(
                    now_ms,
                    EventView::Output { at_ms, bytes: bytes@ },
                ),
    {
        let entry: Option<Entry> = match &mut self.writer {
            Some(writer) => Some(writer.output(at_ms, bytes.as_slice())),
            None => None,
        };
        self.chunk = bytes;
        match entry {
            Some(entry) => {
                self.stage = Stage::RecordingOutput { left };
                Action::Record(entry)
            },
            None => self.answer(left),
        }
    }

    /// Takes the answer of the terminal host to the chunk.
    fn answered(&mut self, now_ms: u64, answer: Vec<u8>, left: usize) -> (action: Action)
        requires
            old(self).wf(),
            old(self)@.stage == (Stage::Answering { left }),
        ensures
            old(self).noted() ==> final(self).noted(),
            (final(self)@, action@) == old(self)@.step(now_ms, EventView::Answered(answer@)),
    {
        if answer.len() == 0 {
            return self.absorb(now_ms, left);
        }
        let entry: Option<Entry> = match &mut self.writer {
            Some(writer) => Some(writer.input(now_ms, InputOrigin::Host, answer.as_slice())),
            None => None,
        };
        match entry {
            Some(entry) => {
                self.stage = Stage::RecordingAnswer { left };
                Action::Record(entry)
            },
            None => self.absorb(now_ms, left),
        }
    }

    /// Records the piece of input that was typed, where there is a recording.
    fn record_typed(&mut self, now_ms: u64) -> (action: Action)
        requires
            old(self).wf(),
            old(self)@.stage == Stage::Typing,
        ensures
            old(self).noted() ==> final(self).noted(),
            (final(self)@, action@) == old(self)@.step(now_ms, EventView::Done),
    {
        let entry: Option<Entry> = match (&mut self.writer, &self.job) {
            (Some(writer), Job::Send { input, pace_ms, next }) => Some(
                writer.input(now_ms, InputOrigin::Client, input[*next].as_slice()),
            ),
            _ => None,
        };
        match entry {
            Some(entry) => {
                self.stage = Stage::RecordingTyped;
                Action::Record(entry)
            },
            None => self.typed(),
        }
    }
}

/// Whether some time has passed since another.
fn has_passed(since_ms: u64, now_ms: u64, time_ms: u64) -> (has: bool)
    ensures
        has == passed(since_ms, now_ms, time_ms),
{
    now_ms >= since_ms && now_ms - since_ms >= time_ms
}

/// Whether output has settled.
fn has_settled(last_ms: u64, now_ms: u64, settle_ms: u64) -> (has: bool)
    ensures
        has == settled(last_ms, now_ms, settle_ms),
{
    now_ms.saturating_sub(last_ms) >= settle_ms
}

// -------------------------------------------------------------------- runs

impl ServerView {
    /// The server after some events, each with the time at which it came.
    pub open spec fn run(self, events: Seq<(u64, EventView)>) -> ServerView
        decreases events.len(),
    {
        if events.len() == 0 {
            self
        } else {
            self.run(events.drop_last()).step(events.last().0, events.last().1).0
        }
    }

    /// Whether each of some events answers what the server waits for then.
    pub open spec fn runs(self, events: Seq<(u64, EventView)>) -> bool
        decreases events.len(),
    {
        events.len() == 0 || {
            &&& self.runs(events.drop_last())
            &&& self.run(events.drop_last()).expects(events.last().1)
        }
    }

    /// What the server does upon some events.
    pub open spec fn actions(self, events: Seq<(u64, EventView)>) -> Seq<ActionView>
        decreases events.len(),
    {
        if events.len() == 0 {
            Seq::empty()
        } else {
            self.actions(events.drop_last()).push(
                self.run(events.drop_last()).step(events.last().0, events.last().1).1,
            )
        }
    }
}

/// Whether nothing failed.
pub open spec fn smooth(events: Seq<(u64, EventView)>) -> bool {
    forall|i: int| 0 <= i < events.len() ==> !((#[trigger] events[i]).1 is Failed)
}

/// The pieces of input among some actions, in their order.
pub open spec fn pieces(actions: Seq<ActionView>) -> Seq<Seq<u8>>
    decreases actions.len(),
{
    if actions.len() == 0 {
        Seq::empty()
    } else {
        match actions.last() {
            ActionView::Type(bytes) => pieces(actions.drop_last()).push(bytes),
            _ => pieces(actions.drop_last()),
        }
    }
}

/// The pauses among some actions, in their order.
pub open spec fn pauses(actions: Seq<ActionView>) -> Seq<u64>
    decreases actions.len(),
{
    if actions.len() == 0 {
        Seq::empty()
    } else {
        match actions.last() {
            ActionView::Sleep(ms) => pauses(actions.drop_last()).push(ms),
            _ => pauses(actions.drop_last()),
        }
    }
}

/// The answers of the terminal host among some events, but for empty ones.
pub open spec fn answers(events: Seq<(u64, EventView)>) -> Seq<Seq<u8>>
    decreases events.len(),
{
    if events.len() == 0 {
        Seq::empty()
    } else {
        match events.last().1 {
            EventView::Answered(bytes) if bytes.len() > 0 => answers(events.drop_last()).push(
                bytes,
            ),
            _ => answers(events.drop_last()),
        }
    }
}

/// The input of one origin in a recording.
pub open spec fn inputs(log: Seq<EntryView>, from: InputOrigin) -> Seq<Seq<u8>>
    decreases log.len(),
{
    if log.len() == 0 {
        Seq::empty()
    } else {
        match log.last() {
            EntryView::Input { at_ms, origin, bytes } if origin == from => inputs(
                log.drop_last(),
                from,
            ).push(bytes),
            _ => inputs(log.drop_last(), from),
        }
    }
}

// -------------------------------------------------------------------- laws

/// The invariant holds after every step.
pub proof fn law_invariant_is_kept(server: ServerView, now_ms: u64, event: EventView)
    requires
        server.wf(),
        server.expects(event),
    ensures
        server.step(now_ms, event).0.wf(),
{
}

proof fn lemma_runs_keep_the_invariant(server: ServerView, events: Seq<(u64, EventView)>)
    requires
        server.wf(),
        server.runs(events),
    ensures
        server.run(events).wf(),
    decreases events.len(),
{
    if events.len() > 0 {
        lemma_runs_keep_the_invariant(server, events.drop_last());
        law_invariant_is_kept(
            server.run(events.drop_last()),
            events.last().0,
            events.last().1,
        );
    }
}

/// Whatever happens, the transcript holds the latest bytes of all the output
/// that the terminal has shown, and never more than the limit.
pub proof fn law_transcript_holds_the_latest_output(
    options: Options,
    writer: Option<WriterView>,
    events: Seq<(u64, EventView)>,
)
    requires
        options.rows > 0,
        options.cols > 0,
        ServerView::opened(options, writer).runs(events),
    ensures
        ({
            let server = ServerView::opened(options, writer).run(events);
            &&& server.transcript.max_bytes == options.max_bytes
            &&& server.transcript.bytes == latest(
                server.terminal.fed.flatten(),
                options.max_bytes as nat,
            )
            &&& server.transcript.bytes.len() <= options.max_bytes
            &&& ({
                let all = server.terminal.fed.flatten();
                &&& all.len() <= options.max_bytes ==> server.transcript.bytes == all
                &&& all.len() > options.max_bytes ==> server.transcript.bytes == all.subrange(
                    all.len() - options.max_bytes,
                    all.len() as int,
                )
            })
        }),
    decreases events.len(),
{
    let start = ServerView::opened(options, writer);
    if events.len() == 0 {
        assert(latest(start.terminal.fed.flatten(), options.max_bytes as nat) =~= Seq::<
            u8,
        >::empty());
    } else {
        law_transcript_holds_the_latest_output(options, writer, events.drop_last());
        let server = start.run(events.drop_last());
        server.terminal.fed.lemma_flatten_push(server.chunk);
        lemma_latest_concat(
            server.terminal.fed.flatten(),
            server.chunk,
            options.max_bytes as nat,
        );
    }
}

impl ServerView {
    /// The terminal once the chunk that is being taken in shows, where the
    /// recording has it already.
    pub open spec fn recorded_terminal(self) -> TerminalView {
        match self.stage {
            Stage::RecordingOutput { left } => self.terminal.after(self.chunk),
            Stage::Answering { left } => self.terminal.after(self.chunk),
            Stage::RecordingAnswer { left } => self.terminal.after(self.chunk),
            _ => self.terminal,
        }
    }
}

/// While nothing fails, to replay what is recorded shows the screen of the live
/// session.
pub proof fn law_recording_replays_to_the_live_screen(
    options: Options,
    started_ms: u64,
    header: EntryView,
    events: Seq<(u64, EventView)>,
)
    requires
        options.rows > 0,
        options.cols > 0,
        smooth(events),
        ServerView::opened(options, Some(WriterView { started_ms, log: seq![header] })).runs(
            events,
        ),
    ensures
        ({
            let server = ServerView::opened(
                options,
                Some(WriterView { started_ms, log: seq![header] }),
            ).run(events);
            &&& server.writer matches Some(writer)
            &&& writer.log.len() > 0
            &&& writer.log[0] == header
            &&& replayed(options.rows, options.cols, writer.log.skip(1))
                == server.recorded_terminal()
        }),
    decreases events.len(),
{
    let start = ServerView::opened(options, Some(WriterView { started_ms, log: seq![header] }));
    if events.len() == 0 {
        assert(seq![header].skip(1) =~= Seq::<EntryView>::empty());
    } else {
        law_recording_replays_to_the_live_screen(
            options,
            started_ms,
            header,
            events.drop_last(),
        );
        lemma_runs_keep_the_invariant(start, events.drop_last());
        let before = start.run(events.drop_last());
        let after = start.run(events);
        let log = before.writer.unwrap().log;
        let entry = after.writer.unwrap().log.last();
        assert(log.push(entry).skip(1) =~= log.skip(1).push(entry));
        assert(log.skip(1).push(entry).drop_last() =~= log.skip(1));
        assert(!(events.last().1 is Failed));
    }
}

/// While nothing fails, the recording holds every piece of input that was typed
/// for a client and every answer of the terminal host, in their order.
pub proof fn law_recording_keeps_the_input(
    options: Options,
    started_ms: u64,
    header: EntryView,
    events: Seq<(u64, EventView)>,
)
    requires
        options.rows > 0,
        options.cols > 0,
        header is Header,
        smooth(events),
        ServerView::opened(options, Some(WriterView { started_ms, log: seq![header] })).runs(
            events,
        ),
    ensures
        ({
            let start = ServerView::opened(
                options,
                Some(WriterView { started_ms, log: seq![header] }),
            );
            let server = start.run(events);
            let typed = pieces(start.actions(events));
            &&& server.writer matches Some(writer)
            &&& inputs(writer.log, InputOrigin::Host) == answers(events)
            &&& inputs(writer.log, InputOrigin::Client) == if server.stage == Stage::Typing {
                typed.drop_last()
            } else {
                typed
            }
            &&& server.stage == Stage::Typing ==> typed.len() > 0
            &&& server.stage == Stage::Typing ==> (server.job matches JobView::Send {
                input,
                pace_ms,
                next,
            } ==> typed.last() == input[next as int])
        }),
    decreases events.len(),
{
    let start = ServerView::opened(options, Some(WriterView { started_ms, log: seq![header] }));
    if events.len() == 0 {
        assert(seq![header].drop_last() =~= Seq::<EntryView>::empty());
        reveal_with_fuel(inputs, 2);
    } else {
        law_recording_keeps_the_input(options, started_ms, header, events.drop_last());
        lemma_runs_keep_the_invariant(start, events.drop_last());
        let before = start.run(events.drop_last());
        let after = start.run(events);
        let log = before.writer.unwrap().log;
        let entry = after.writer.unwrap().log.last();
        let done = start.actions(events.drop_last());
        let action = before.step(events.last().0, events.last().1).1;
        assert(!(events.last().1 is Failed));
        assert(log.push(entry).drop_last() =~= log);
        assert(done.push(action).drop_last() =~= done);
        let typed = pieces(done);
        if typed.len() > 0 {
            assert(typed.drop_last().push(typed.last()) =~= typed);
        }
        if action is Type {
            assert(typed.push(action->Type_0).drop_last() =~= typed);
        }
    }
}

impl ServerView {
    /// Whether some events are a request to type some input, and what came
    /// while that was done.
    pub open spec fn sends(self, input: Seq<Seq<u8>>, pace_ms: u64, events: Seq<(u64, EventView)>)
        -> bool
        decreases events.len(),
    {
        if events.len() <= 1 {
            events.len() == 1 && events[0].1 == EventView::Request(
                RequestView::Send { input, pace_ms },
            )
        } else {
            &&& self.sends(input, pace_ms, events.drop_last())
            &&& self.run(events.drop_last()).job is Send
        }
    }
}

/// As many pauses of one length, where that is more than nothing.
pub open spec fn paces(pace_ms: u64, count: nat) -> Seq<u64> {
    Seq::new(if pace_ms > 0 { count } else { 0 }, |i: int| pace_ms)
}

/// Whether a piece of input has just been typed.
spec fn just_typed(server: ServerView) -> bool {
    server.stage == Stage::Typing || server.stage == Stage::RecordingTyped
}

proof fn lemma_sending_step(server: ServerView, now_ms: u64, event: EventView)
    requires
        server.wf(),
        server.expects(event),
        server.job is Send,
    ensures
        ({
            let (next, action) = server.step(now_ms, event);
            let input = server.job->Send_input;
            let pace_ms = server.job->Send_pace_ms;
            let at = server.job->Send_next;
            match action {
                ActionView::Type(bytes) => {
                    &&& at + 1 < input.len()
                    &&& bytes == input[at as int + 1]
                    &&& next.job == JobView::Send { input, pace_ms, next: at + 1 }
                    &&& next.stage == Stage::Typing
                    &&& just_typed(server) ==> pace_ms == 0
                },
                ActionView::Sleep(ms) => {
                    &&& ms == pace_ms
                    &&& pace_ms > 0
                    &&& at + 1 < input.len()
                    &&& next.job == server.job
                    &&& !just_typed(next)
                    &&& just_typed(server)
                },
                ActionView::Reply(response) => {
                    &&& next.job is Poll
                    &&& response == success(None) ==> at + 1 == input.len()
                },
                _ => {
                    &&& next.job == server.job
                    &&& just_typed(next) == just_typed(server)
                },
            }
        }),
{
}

/// What a live session is sent is typed piece by piece: what was typed is
/// always the beginning of the input, and all of it once the client is told of
/// success. At a pace there is one pause between two pieces, and none after the
/// last.
pub proof fn law_input_is_typed_piece_by_piece(
    server: ServerView,
    input: Seq<Seq<u8>>,
    pace_ms: u64,
    events: Seq<(u64, EventView)>,
)
    requires
        server.wf(),
        server.stage == Stage::Parsing,
        !server.closed,
        server.runs(events),
        server.sends(input, pace_ms, events),
    ensures
        ({
            let actions = server.actions(events);
            let next = server.run(events);
            &&& pieces(actions).is_prefix_of(input)
            &&& actions.last() == ActionView::Reply(success(None)) ==> {
                &&& pieces(actions) == input
                &&& pauses(actions) == paces(
                    pace_ms,
                    if input.len() > 0 {
                        (input.len() - 1) as nat
                    } else {
                        0
                    },
                )
            }
            &&& next.job matches JobView::Send { input: whole, pace_ms: pace, next: at } ==> {
                &&& whole == input
                &&& pace == pace_ms
                &&& pieces(actions) == input.take(at as int + 1)
                &&& if next.stage == Stage::Typing || next.stage == Stage::RecordingTyped {
                    pauses(actions) == paces(pace_ms, at)
                } else {
                    pace_ms > 0 && at + 1 < input.len() && pauses(actions) == paces(
                        pace_ms,
                        at + 1,
                    )
                }
            }
        }),
    decreases events.len(),
{
    let done = server.actions(events.drop_last());
    let before = server.run(events.drop_last());
    let action = before.step(events.last().0, events.last().1).1;
    assert(done.push(action).drop_last() =~= done);
    if events.len() == 1 {
        assert(events.drop_last() =~= Seq::<(u64, EventView)>::empty());
        assert(events.last() == events[0]);
        assert(paces(pace_ms, 0) =~= Seq::<u64>::empty());
        reveal_with_fuel(pieces, 2);
        reveal_with_fuel(pauses, 2);
        if input.len() == 0 {
            assert(pieces(server.actions(events)) =~= input);
        } else {
            assert(pieces(server.actions(events)) =~= input.take(1));
        }
    } else {
        law_input_is_typed_piece_by_piece(server, input, pace_ms, events.drop_last());
        lemma_runs_keep_the_invariant(server, events.drop_last());
        lemma_sending_step(before, events.last().0, events.last().1);
        let at = before.job->Send_next;
        let typed = pieces(done);
        assert(input.take(input.len() as int) =~= input);
        if action is Type {
            assert(typed.push(input[at as int + 1]) =~= input.take(at as int + 2));
        }
        if pace_ms > 0 {
            assert(paces(pace_ms, at).push(pace_ms) =~= paces(pace_ms, at + 1));
        } else {
            assert(paces(pace_ms, at) =~= paces(pace_ms, at + 1));
        }
    }
}

/// A client that waits for a text is told of success exactly when the screen
/// shows it. Otherwise it is told once no more output can come, or once as much
/// time as it gave has gone since it asked, and in no other case: until then the
/// server pauses briefly and looks again.
pub proof fn law_wait_ends_with_the_text(server: ServerView, now_ms: u64, event: EventView)
    requires
        server.wf(),
        server.stage is Receiving,
        server.job is Wait,
        event is Nothing || event is Closed,
    ensures
        ({
            let text = server.job->Wait_text;
            let visible = occurs(server.terminal.text(), text);
            let closed = server.closed || event is Closed;
            let late = now_ms - server.job->Wait_since_ms >= server.job->Wait_timeout_ms;
            let (next, action) = server.step(now_ms, event);
            let ended = ResponseView {
                error: Some(SessionFault::EndedBefore(text).told()),
                captured: None,
            };
            let timed_out = ResponseView {
                error: Some(SessionFault::WaitTimeout(text).told()),
                captured: None,
            };
            &&& visible <==> action == ActionView::Reply(
                ResponseView { error: None, captured: None },
            )
            &&& !visible && closed ==> action == ActionView::Reply(ended)
            &&& !visible && !closed && late ==> action == ActionView::Reply(timed_out)
            &&& !visible && !closed && !late ==> action == ActionView::Sleep(10) && next.job
                == server.job && next.stage == Stage::Pausing
        }),
{
}

/// A client that asks for the screen always gets it, and gets it as it is then:
/// once no output has come for as long as was asked, counted from the last output
/// or, where there was none, from the request, once as much time as the client
/// gave has gone since it asked, or once no more output can come, and not before.
pub proof fn law_snapshot_shows_the_settled_screen(
    server: ServerView,
    now_ms: u64,
    event: EventView,
)
    requires
        server.wf(),
        server.stage is Receiving,
        server.job is Snapshot,
        event is Nothing || event is Closed,
    ensures
        ({
            let since_ms = server.job->Snapshot_since_ms;
            let closed = server.closed || event is Closed;
            let last_ms = match server.last_output {
                Some(last_ms) => last_ms,
                None => since_ms,
            };
            let silence = if now_ms >= last_ms {
                now_ms - last_ms
            } else {
                0
            };
            let quiet = silence >= server.job->Snapshot_settle_ms;
            let late = now_ms - since_ms >= server.job->Snapshot_deadline_ms;
            let (next, action) = server.step(now_ms, event);
            let screen = CapturedView {
                frame: server.terminal.frame(),
                ansi: server.transcript.bytes,
            };
            &&& closed || quiet || late ==> action == ActionView::Reply(
                ResponseView { error: None, captured: Some(screen) },
            )
            &&& !closed && !quiet && !late ==> action == ActionView::Sleep(10) && next.job
                == server.job && next.stage == Stage::Pausing
        }),
{
}

/// A snapshot of a session whose application has exited is answered at once,
/// with the final screen and transcript, and the session keeps both.
pub proof fn law_exited_session_keeps_its_screen(
    server: ServerView,
    settle_ms: u64,
    deadline_ms: u64,
    asked_ms: u64,
    now_ms: u64,
)
    requires
        server.wf(),
        server.stage == Stage::Parsing,
        server.closed,
    ensures
        ({
            let (taking, first) = server.step(
                asked_ms,
                EventView::Request(RequestView::Snapshot { settle_ms, deadline_ms }),
            );
            let (after, second) = taking.step(now_ms, EventView::Closed);
            &&& first == ActionView::Receive
            &&& second == ActionView::Reply(success(Some(server.captured())))
            &&& after.terminal == server.terminal
            &&& after.transcript == server.transcript
            &&& after.closed
        }),
{
}

/// A session whose application has exited types nothing: the client is told so,
/// and nothing else changes.
pub proof fn law_exited_session_refuses_input(
    server: ServerView,
    now_ms: u64,
    input: Seq<Seq<u8>>,
    pace_ms: u64,
)
    requires
        server.wf(),
        server.stage == Stage::Parsing,
        server.closed,
    ensures
        server.step(now_ms, EventView::Request(RequestView::Send { input, pace_ms })) == (
            server.at(Stage::Replying { close: false }),
            ActionView::Reply(failure(SessionFault::CommandExited)),
        ),
{
}

/// A request that is too long, unreadable or no request at all is answered with
/// that error; the screen, the transcript and the recording stay as they are,
/// and the session goes on whether or not the answer arrives.
pub proof fn law_bad_request_changes_nothing(
    server: ServerView,
    now_ms: u64,
    later_ms: u64,
    event: EventView,
    delivery: EventView,
)
    requires
        server.wf(),
        server.expects(event),
        server.stage == Stage::Reading || server.stage == Stage::Parsing,
        event is Unread || event is Unparsed || (event matches EventView::Bytes(bytes)
            && bytes.len() > MAX_REQUEST_BYTES),
        delivery is Done || delivery is Failed,
    ensures
        ({
            let fault = match event {
                EventView::Unread(cause) => SessionFault::UnreadRequest(cause),
                EventView::Unparsed(cause) => SessionFault::InvalidRequest(cause),
                _ => SessionFault::RequestTooLong,
            };
            let (answering, action) = server.step(now_ms, event);
            &&& action == ActionView::Reply(failure(fault))
            &&& answering == server.at(Stage::Replying { close: false })
            &&& answering.step(later_ms, delivery) == server.consume()
        }),
{
}

/// A session ends well only when a client that asked for it has been answered,
/// and badly only when something fails that no client waits for.
pub proof fn law_session_ends_for_a_reason(server: ServerView, now_ms: u64, event: EventView)
    requires
        server.wf(),
        server.expects(event),
        server.step(now_ms, event).1 is Exit,
    ensures
        match server.step(now_ms, event).1->Exit_0 {
            Ok(_) => server.stage == (Stage::Replying { close: true }) && event is Done,
            Err(fault) => server.job is Poll && !(server.stage is Replying) && event
                == EventView::Failed(fault->Outside_0) && fault is Outside,
        },
{
}

/// A client is promised the end of the session only where it asks for that.
pub proof fn law_only_close_closes(server: ServerView, now_ms: u64, event: EventView)
    requires
        server.wf(),
        server.expects(event),
        server.step(now_ms, event).0.stage == (Stage::Replying { close: true }),
    ensures
        server.stage == Stage::Parsing,
        event == EventView::Request(RequestView::Close),
        server.step(now_ms, event).1 == ActionView::Reply(success(None)),
{
}

/// Once a session has seen the end of the output, it never takes it back.
pub proof fn law_closed_stays_closed(server: ServerView, now_ms: u64, event: EventView)
    requires
        server.wf(),
        server.expects(event),
        server.closed,
    ensures
        server.step(now_ms, event).0.closed,
{
}

/// However much output there is, the server turns to its clients after a
/// batch: each chunk that is taken in leaves one fewer to take, and after the
/// last one the server does something else.
pub proof fn law_output_does_not_starve_clients(
    server: ServerView,
    now_ms: u64,
    event: EventView,
    left: usize,
)
    requires
        server.wf(),
        server.expects(event),
        server.stage == (Stage::Answering { left }) || server.stage == (Stage::RecordingAnswer {
            left,
        }),
        !(event is Failed),
    ensures
        ({
            let (next, action) = server.step(now_ms, event);
            &&& left <= OUTPUT_BATCH
            &&& if next.stage == (Stage::RecordingAnswer { left }) {
                server.stage == (Stage::Answering { left }) && action is Record
            } else if left > 1 {
                next == server.absorbed(now_ms).at(Stage::Receiving { left: (left - 1) as usize })
            } else {
                next.terminal == server.terminal.after(server.chunk) && !(action is Receive)
            }
        }),
{
}

/// The screen and the transcript change only when a chunk of output has been
/// taken in, and by that chunk alone: no request touches them.
pub proof fn law_only_output_changes_the_screen(server: ServerView, now_ms: u64, event: EventView)
    requires
        server.wf(),
        server.expects(event),
    ensures
        ({
            let next = server.step(now_ms, event).0;
            let shown = next.terminal == server.terminal.after(server.chunk) && next.transcript
                == server.transcript.after(server.chunk);
            let kept = next.terminal == server.terminal && next.transcript == server.transcript;
            match server.stage {
                Stage::Answering { left } => if event is Failed || (server.writer is Some
                    && event->Answered_0.len() > 0) {
                    kept
                } else {
                    shown
                },
                Stage::RecordingAnswer { left } => if event is Failed {
                    kept
                } else {
                    shown
                },
                _ => kept,
            }
        }),
{
}

/// The transcript takes up all output and gives away only its oldest bytes, and
/// no more of them than the limit asks for.
pub proof fn law_transcript_gives_away_the_oldest_bytes(
    transcript: TranscriptView,
    bytes: Seq<u8>,
)
    ensures
        ({
            let all = transcript.bytes + bytes;
            let next = transcript.after(bytes);
            &&& next.max_bytes == transcript.max_bytes
            &&& all.len() <= transcript.max_bytes ==> next.bytes == all
            &&& all.len() > transcript.max_bytes ==> next.bytes.len() == transcript.max_bytes
                && forall|i: int|
                0 <= i < next.bytes.len() ==> #[trigger] next.bytes[i] == all[all.len()
                    - next.bytes.len() + i]
        }),
{
}

/// A server starts with an empty terminal of the size that was asked for, with an
/// empty transcript, and with no client, and takes in output first.
pub proof fn law_server_starts_empty(options: Options, writer: Option<WriterView>)
    ensures
        ({
            let server = ServerView::opened(options, writer);
            &&& server.terminal.rows == options.rows && server.terminal.cols == options.cols
            &&& server.terminal.fed.len() == 0
            &&& server.transcript.bytes.len() == 0
            &&& server.transcript.max_bytes == options.max_bytes
            &&& !server.closed && server.last_output is None && server.writer == writer
            &&& server.job is Poll && server.stage == (Stage::Receiving { left: 32 })
        }),
{
}

/// What a client asks is taken up as it was asked, and from the moment at which it
/// was asked: nothing of the session changes but what the server does.
pub proof fn law_requests_are_taken_up_as_asked(
    server: ServerView,
    now_ms: u64,
    request: RequestView,
)
    requires
        server.wf(),
        server.stage == Stage::Parsing,
    ensures
        ({
            let (next, action) = server.step(now_ms, EventView::Request(request));
            let done = ActionView::Reply(ResponseView { error: None, captured: None });
            &&& next.terminal == server.terminal && next.transcript == server.transcript
            &&& next.closed == server.closed && next.last_output == server.last_output
            &&& next.writer == server.writer
            &&& match request {
                RequestView::Ping => action == done && next.job is Poll && next.stage == (
                Stage::Replying { close: false }),
                RequestView::Close => action == done && next.job is Poll && next.stage == (
                Stage::Replying { close: true }),
                RequestView::Wait { text, timeout_ms } => action is Receive && next.stage == (
                Stage::Receiving { left: 32 }) && next.job == (JobView::Wait {
                    text,
                    since_ms: now_ms,
                    timeout_ms,
                }),
                RequestView::Snapshot { settle_ms, deadline_ms } => action is Receive && next.stage
                    == (Stage::Receiving { left: 32 }) && next.job == (JobView::Snapshot {
                    since_ms: now_ms,
                    settle_ms,
                    deadline_ms,
                }),
                RequestView::Send { input, pace_ms } => if server.closed {
                    action == ActionView::Reply(
                        ResponseView {
                            error: Some(SessionFault::CommandExited.told()),
                            captured: None,
                        },
                    ) && next.job is Poll
                } else if input.len() == 0 {
                    action == done && next.job is Poll
                } else {
                    action == ActionView::Type(input[0]) && next.stage == Stage::Typing && next.job
                        == (JobView::Send { input, pace_ms, next: 0 })
                },
            }
        }),
{
}

/// A chunk of output is recorded with its own time, where there is a recording,
/// before the terminal host may answer it, and only then shown and kept; whatever
/// was not output leaves the screen as it is.
pub proof fn law_output_is_recorded_answered_and_shown(
    server: ServerView,
    now_ms: u64,
    at_ms: u64,
    bytes: Seq<u8>,
    left: usize,
)
    requires
        server.wf(),
        server.stage == (Stage::Receiving { left }),
        server.terminal.takes(bytes),
    ensures
        ({
            let (next, action) = server.step(now_ms, EventView::Output { at_ms, bytes });
            &&& next.chunk == bytes && next.terminal == server.terminal && next.job == server.job
            &&& match server.writer {
                Some(writer) => {
                    let entry = EntryView::Output { at_ms, bytes };
                    &&& action == ActionView::Record(entry)
                    &&& next.stage == (Stage::RecordingOutput { left })
                    &&& next.writer matches Some(after) && after.log == writer.log.push(entry)
                        && after.started_ms == writer.started_ms
                    &&& next.step(now_ms, EventView::Done).1 == ActionView::Answer(bytes)
                },
                None => action == ActionView::Answer(bytes) && next.stage == (Stage::Answering {
                    left,
                }) && next.writer is None,
            }
        }),
{
}

/// Once the terminal host has answered, its answer is recorded with the time since
/// the session started, where there is one and a recording, and then the chunk is
/// shown, kept and remembered as the latest output.
pub proof fn law_answered_output_is_shown(
    server: ServerView,
    now_ms: u64,
    answer: Seq<u8>,
    left: usize,
)
    requires
        server.wf(),
        server.stage == (Stage::Answering { left }),
    ensures
        ({
            let (next, action) = server.step(now_ms, EventView::Answered(answer));
            if server.writer is Some && answer.len() > 0 {
                let writer = server.writer->Some_0;
                let entry = EntryView::Input {
                    at_ms: if now_ms >= writer.started_ms {
                        (now_ms - writer.started_ms) as u64
                    } else {
                        0
                    },
                    origin: InputOrigin::Host,
                    bytes: answer,
                };
                &&& action == ActionView::Record(entry)
                &&& next.writer matches Some(after) && after.log == writer.log.push(entry)
                &&& next.stage == (Stage::RecordingAnswer { left })
                &&& next.terminal == server.terminal && next.chunk == server.chunk
                &&& ({
                    let shown = next.step(now_ms, EventView::Done).0;
                    &&& shown.terminal.fed == server.terminal.fed.push(server.chunk)
                    &&& shown.transcript == server.transcript.after(server.chunk)
                    &&& shown.last_output == Some(now_ms)
                })
            } else {
                &&& next.terminal.fed == server.terminal.fed.push(server.chunk)
                &&& next.transcript == server.transcript.after(server.chunk)
                &&& next.last_output == Some(now_ms)
                &&& next.writer == server.writer
            }
        }),
{
}

/// Input that was typed for a client is recorded as it was typed, with the time
/// since the session started; without a recording, nothing is.
pub proof fn law_typed_input_is_recorded(server: ServerView, now_ms: u64)
    requires
        server.wf(),
        server.stage == Stage::Typing,
    ensures
        ({
            let (next, action) = server.step(now_ms, EventView::Done);
            let piece = server.job->Send_input[server.job->Send_next as int];
            match server.writer {
                Some(writer) => {
                    let entry = EntryView::Input {
                        at_ms: if now_ms >= writer.started_ms {
                            (now_ms - writer.started_ms) as u64
                        } else {
                            0
                        },
                        origin: InputOrigin::Client,
                        bytes: piece,
                    };
                    &&& action == ActionView::Record(entry)
                    &&& next.writer matches Some(after) && after.log == writer.log.push(entry)
                    &&& next.job == server.job
                },
                None => next.writer is None && !(action is Record),
            }
        }),
{
}

/// What fails while a client waits is told to that client, and the session goes
/// on; what fails without one ends it.
pub proof fn law_failures_are_told(server: ServerView, now_ms: u64, cause: Seq<char>)
    requires
        server.wf(),
        server.expects(EventView::Failed(cause)),
        !(server.stage is Replying),
    ensures
        ({
            let (next, action) = server.step(now_ms, EventView::Failed(cause));
            &&& next.terminal == server.terminal && next.transcript == server.transcript
            &&& server.job is Poll ==> action == ActionView::Exit(
                Err::<(), SessionFault>(SessionFault::Outside(cause)),
            ) && next.stage == Stage::Over
            &&& !(server.job is Poll) ==> action == ActionView::Reply(
                ResponseView { error: Some(cause), captured: None },
            ) && next.job is Poll && next.stage == (Stage::Replying { close: false })
        }),
{
}

/// Between requests the server goes round: once output is taken in it looks for a
/// client, reads and parses what the client sent, answers, and takes in output
/// again; without a client it pauses first. A session that was asked to close ends
/// once the answer has arrived.
pub proof fn law_server_goes_round(server: ServerView, now_ms: u64, bytes: Seq<u8>)
    requires
        server.wf(),
    ensures
        server.stage is Receiving && server.job is Poll ==> server.step(
            now_ms,
            EventView::Nothing,
        ) == (server.at(Stage::Accepting), ActionView::Accept),
        server.stage == Stage::Accepting ==> server.step(now_ms, EventView::Done) == (
            server.at(Stage::Reading),
            ActionView::ReadRequest,
        ),
        server.stage == Stage::Accepting ==> server.step(now_ms, EventView::Nothing) == (
            server.at(Stage::Pausing),
            ActionView::Sleep(10),
        ),
        server.stage == Stage::Reading && bytes.len() <= 1048576 ==> server.step(
            now_ms,
            EventView::Bytes(bytes),
        ) == (server.at(Stage::Parsing), ActionView::ParseRequest(bytes)),
        server.stage == Stage::Reading && bytes.len() > 1048576 ==> server.step(
            now_ms,
            EventView::Bytes(bytes),
        ) == (
            server.at(Stage::Replying { close: false }),
            ActionView::Reply(
                ResponseView {
                    error: Some(SessionFault::RequestTooLong.told()),
                    captured: None,
                },
            ),
        ),
        server.stage == Stage::Pausing || server.stage == (Stage::Replying { close: false })
            ==> server.step(now_ms, EventView::Done) == (
            server.at(Stage::Receiving { left: 32 }),
            ActionView::Receive,
        ),
        server.stage == (Stage::Replying { close: true }) ==> server.step(
            now_ms,
            EventView::Done,
        ).1 == ActionView::Exit(Ok::<(), SessionFault>(())),
{
}

/// What the server answers with an error carries no screen, and the error as a
/// user is told it; what it answers without one carries just what it captured.
pub proof fn law_answers_carry_an_error_or_a_screen(
    captured: Option<CapturedView>,
    fault: SessionFault,
)
    ensures
        success(captured).error is None,
        success(captured).captured == captured,
        failure(fault).error == Some(fault.told()),
        failure(fault).captured is None,
{
}

/// After the last chunk of a batch the server decides as if it had found no more
/// output: a client is answered or not, and input typed or not, by the same rules.
pub proof fn law_end_of_a_batch_is_like_the_end_of_output(
    server: ServerView,
    now_ms: u64,
    event: EventView,
)
    requires
        server.wf(),
        server.expects(event),
        !(event is Failed),
        server.stage == (Stage::RecordingAnswer { left: 1 }) || (server.stage == (Stage::Answering {
            left: 1,
        }) && (server.writer is None || event->Answered_0.len() == 0)),
    ensures
        ({
            let shown = ServerView {
                terminal: TerminalView {
                    fed: server.terminal.fed.push(server.chunk),
                    ..server.terminal
                },
                transcript: server.transcript.after(server.chunk),
                last_output: Some(now_ms),
                chunk: Seq::empty(),
                stage: Stage::Receiving { left: 1 },
                ..server
            };
            server.step(now_ms, event) == shown.step(now_ms, EventView::Nothing)
        }),
{
}

/// The end of the output is noticed as such, and changes nothing else by itself:
/// the server goes on as if there were no output just now.
pub proof fn law_end_of_output_is_noticed(server: ServerView, now_ms: u64)
    requires
        server.wf(),
        server.stage is Receiving,
    ensures
        server.step(now_ms, EventView::Closed) == (ServerView { closed: true, ..server }).step(
            now_ms,
            EventView::Nothing,
        ),
        server.step(now_ms, EventView::Closed).0.closed,
        server.step(now_ms, EventView::Nothing).0.closed == server.closed,
{
}

/// The values of what the server does and of what comes of it hold everything that
/// those do.
pub proof fn law_action_and_event_values_are_complete(action: Action, event: Event)
    ensures
        match action {
            Action::Record(entry) => action@ == ActionView::Record(entry@),
            Action::Answer(bytes) => action@ == ActionView::Answer(bytes@),
            Action::Type(bytes) => action@ == ActionView::Type(bytes@),
            Action::Sleep(ms) => action@ == ActionView::Sleep(ms),
            Action::ParseRequest(bytes) => action@ == ActionView::ParseRequest(bytes@),
            Action::Reply(response) => action@ == ActionView::Reply(response@),
            Action::Exit(Ok(done)) => action@ == ActionView::Exit(Ok(done)),
            Action::Exit(Err(error)) => action@ == ActionView::Exit(Err(error@)),
            Action::Receive => action@ is Receive,
            Action::Accept => action@ is Accept,
            Action::ReadRequest => action@ is ReadRequest,
        },
        match event {
            Event::Output { at_ms, bytes } => event@ == (EventView::Output { at_ms, bytes: bytes@ }),
            Event::Answered(bytes) => event@ == EventView::Answered(bytes@),
            Event::Bytes(bytes) => event@ == EventView::Bytes(bytes@),
            Event::Unread(cause) => event@ == EventView::Unread(cause@),
            Event::Request(request) => event@ == EventView::Request(request@),
            Event::Unparsed(cause) => event@ == EventView::Unparsed(cause@),
            Event::Failed(cause) => event@ == EventView::Failed(cause@),
            Event::Nothing => event@ is Nothing,
            Event::Closed => event@ is Closed,
            Event::Done => event@ is Done,
        },
{
}

/// Whatever can come of what the server does is something that it expects: output
/// that the terminal takes, no output, or the end of it; a record, an answer or a
/// piece of input that succeeds or fails; a client, none, or a failure; a request
/// that is read, unreadable, parsed or no request.
pub proof fn law_server_expects_what_can_happen(
    server: ServerView,
    at_ms: u64,
    bytes: Seq<u8>,
    cause: Seq<char>,
    request: RequestView,
)
    ensures
        server.stage is Receiving ==> server.expects(EventView::Nothing) && server.expects(
            EventView::Closed,
        ) && (takes(server.terminal.rows, server.terminal.cols, server.terminal.fed.push(bytes))
            <==> server.expects(EventView::Output { at_ms, bytes })),
        server.stage is RecordingOutput || server.stage is RecordingAnswer || server.stage is Typing
            || server.stage is RecordingTyped || server.stage is Replying ==> server.expects(
            EventView::Done,
        ) && server.expects(EventView::Failed(cause)),
        server.stage is Answering ==> server.expects(EventView::Answered(bytes)) && server.expects(
            EventView::Failed(cause),
        ),
        server.stage is Pausing ==> server.expects(EventView::Done),
        server.stage is Accepting ==> server.expects(EventView::Done) && server.expects(
            EventView::Nothing,
        ) && server.expects(EventView::Failed(cause)),
        server.stage is Reading ==> server.expects(EventView::Bytes(bytes)) && server.expects(
            EventView::Unread(cause),
        ) && server.expects(EventView::Failed(cause)),
        server.stage is Parsing ==> server.expects(EventView::Request(request)) && server.expects(
            EventView::Unparsed(cause),
        ),
{
}

/// A server of any size that a terminal can have starts in order.
pub proof fn law_every_server_starts_in_order(options: Options, writer: Option<WriterView>)
    requires
        options.rows > 0,
        options.cols > 0,
    ensures
        ServerView::opened(options, writer).wf(),
{
}

} // verus!
