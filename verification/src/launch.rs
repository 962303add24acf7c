//! The start of a session: a client makes sure that its name is free, starts
//! the server and waits until it answers.

use vstd::prelude::*;
use vstd::string::*;
use vstd::utf8::*;
use crate::session::{absolute, is_absolute, join, joined, path_view, socket_file, socket_path};
use crate::session::{ensure_socket_path, valid_name, validate_name, Options, Platform};
use crate::session::{SessionError, SessionFault, MAX_SOCKET_PATH};
use crate::text::{bytes_of, chunks, copy_bytes, decimal, number, texts};

verus! {

/// How long a client waits for a new server.
pub const START_TIMEOUT_MS: u64 = 5000;

/// How long a client pauses between two looks at a new server.
pub const START_POLL_MS: u64 = 20;

/// What a client has to do next.
#[derive(Debug, PartialEq, Eq)]
pub enum LaunchAction {
    /// Find and secure the runtime directory.
    FindRuntimeDir,
    /// Look whether the socket exists.
    FindSocket,
    /// Ask whoever listens at the socket to answer.
    Ping,
    /// Remove the socket that nobody listens at.
    RemoveSocket,
    /// Find the working directory.
    FindWorkingDir,
    /// Start the server with some arguments.
    Spawn(Vec<Vec<u8>>),
    /// Look whether the server has exited.
    PollServer,
    /// Pause.
    Sleep(u64),
    /// Kill the server.
    KillServer,
    /// The launch is over.
    Finish(Result<(), SessionError>),
}

/// What a client has to do next, as a mathematical value.
pub enum LaunchActionView {
    FindRuntimeDir,
    FindSocket,
    Ping,
    RemoveSocket,
    FindWorkingDir,
    Spawn(Seq<Seq<u8>>),
    PollServer,
    Sleep(u64),
    KillServer,
    Finish(Result<(), SessionFault>),
}

impl View for LaunchAction {
    type V = LaunchActionView;

    open spec fn view(&self) -> LaunchActionView {
        match *self {
            LaunchAction::FindRuntimeDir => LaunchActionView::FindRuntimeDir,
            LaunchAction::FindSocket => LaunchActionView::FindSocket,
            LaunchAction::Ping => LaunchActionView::Ping,
            LaunchAction::RemoveSocket => LaunchActionView::RemoveSocket,
            LaunchAction::FindWorkingDir => LaunchActionView::FindWorkingDir,
            LaunchAction::Spawn(arguments) => LaunchActionView::Spawn(chunks(arguments@)),
            LaunchAction::PollServer => LaunchActionView::PollServer,
            LaunchAction::Sleep(ms) => LaunchActionView::Sleep(ms),
            LaunchAction::KillServer => LaunchActionView::KillServer,
            LaunchAction::Finish(Ok(done)) => LaunchActionView::Finish(Ok(done)),
            LaunchAction::Finish(Err(error)) => LaunchActionView::Finish(Err(error@)),
        }
    }
}

/// What came of an action.
#[derive(Debug, PartialEq, Eq)]
pub enum LaunchEvent {
    /// The action succeeded; of a look, that there is something.
    Done,
    /// There is nothing; of the server, that it runs.
    Nothing,
    /// The directory that was looked for.
    Dir(Vec<u8>),
    /// The server has exited with some status.
    Exited(String),
    /// The action failed.
    Failed(SessionError),
}

/// What came of an action, as a mathematical value.
pub enum LaunchEventView {
    Done,
    Nothing,
    Dir(Seq<u8>),
    Exited(Seq<char>),
    Failed(SessionFault),
}

impl View for LaunchEvent {
    type V = LaunchEventView;

    open spec fn view(&self) -> LaunchEventView {
        match *self {
            LaunchEvent::Done => LaunchEventView::Done,
            LaunchEvent::Nothing => LaunchEventView::Nothing,
            LaunchEvent::Dir(dir) => LaunchEventView::Dir(dir@),
            LaunchEvent::Exited(status) => LaunchEventView::Exited(status@),
            LaunchEvent::Failed(error) => LaunchEventView::Failed(error@),
        }
    }
}

/// What a client waits for.
#[derive(Clone, Copy, Debug, PartialEq, Eq, Structural)]
pub enum LaunchPhase {
    /// The runtime directory.
    Dir,
    /// Whether the socket exists.
    Socket,
    /// An answer of a session of the same name.
    Rival,
    /// The end of the stale socket.
    Removal,
    /// The working directory.
    WorkingDir,
    /// The new server.
    Spawn,
    /// An answer of the new server.
    Answer,
    /// Whether the new server still runs.
    Poll,
    /// The end of a pause.
    Pause,
    /// The end of a server that did not answer.
    Kill,
    /// Nothing.
    Over,
}

/// A session that is being started.
pub struct Launch {
    name: String,
    command: Vec<String>,
    cwd: Option<Vec<u8>>,
    record: Option<Vec<u8>>,
    options: Options,
    socket: Vec<u8>,
    spawned_ms: u64,
    phase: LaunchPhase,
}

/// A session that is being started, as a mathematical value.
pub struct LaunchView {
    pub name: Seq<char>,
    pub command: Seq<Seq<char>>,
    pub cwd: Option<Seq<u8>>,
    pub record: Option<Seq<u8>>,
    pub options: Options,
    pub socket: Seq<u8>,
    pub spawned_ms: u64,
    pub phase: LaunchPhase,
}

impl View for Launch {
    type V = LaunchView;

    closed spec fn view(&self) -> LaunchView {
        LaunchView {
            name: self.name@,
            command: texts(self.command@),
            cwd: path_view(self.cwd),
            record: path_view(self.record),
            options: self.options,
            socket: self.socket@,
            spawned_ms: self.spawned_ms,
            phase: self.phase,
        }
    }
}

/// A flag and its value.
pub open spec fn flag(name: Seq<char>, value: Seq<u8>) -> Seq<Seq<u8>> {
    seq![encode_utf8(name), value]
}

/// A flag and its value, where there is one.
pub open spec fn optional_flag(name: Seq<char>, value: Option<Seq<u8>>) -> Seq<Seq<u8>> {
    match value {
        Some(value) => flag(name, value),
        None => Seq::empty(),
    }
}

/// The bytes of a number.
pub open spec fn number_bytes(n: nat) -> Seq<u8> {
    encode_utf8(decimal(n))
}

/// The bytes of the words of a command.
pub open spec fn command_bytes(command: Seq<Seq<char>>) -> Seq<Seq<u8>> {
    command.map_values(|word: Seq<char>| encode_utf8(word))
}

impl LaunchView {
    /// The arguments of the server.
    pub open spec fn arguments(self) -> Seq<Seq<u8>> {
        seq![encode_utf8("__serve"@)] + flag("--socket"@, self.socket) + flag(
            "--cols"@,
            number_bytes(self.options.cols as nat),
        ) + flag("--rows"@, number_bytes(self.options.rows as nat)) + flag(
            "--cell-width"@,
            number_bytes(self.options.cell_width as nat),
        ) + flag("--cell-height"@, number_bytes(self.options.cell_height as nat)) + flag(
            "--max-bytes"@,
            number_bytes(self.options.max_bytes as nat),
        ) + (if self.options.opentui_host {
            seq![encode_utf8("--opentui-host"@)]
        } else {
            Seq::empty()
        }) + optional_flag("--cwd"@, self.cwd) + optional_flag("--record"@, self.record)
            + seq![encode_utf8("--"@)] + command_bytes(self.command)
    }

    /// The same launch in another phase.
    pub open spec fn at(self, phase: LaunchPhase) -> LaunchView {
        LaunchView { phase, ..self }
    }

    /// The end of a launch.
    pub open spec fn finish(self, result: Result<(), SessionFault>) -> (
        LaunchView,
        LaunchActionView,
    ) {
        (self.at(LaunchPhase::Over), LaunchActionView::Finish(result))
    }

    /// The name is free: the server is started, once the path of a recording is
    /// known in full.
    pub open spec fn spawn(self) -> (LaunchView, LaunchActionView) {
        match self.record {
            Some(record) if !absolute(record) => (
                self.at(LaunchPhase::WorkingDir),
                LaunchActionView::FindWorkingDir,
            ),
            _ => (self.at(LaunchPhase::Spawn), LaunchActionView::Spawn(self.arguments())),
        }
    }

    /// Whether an event answers what the client waits for.
    pub open spec fn expects(self, event: LaunchEventView) -> bool {
        match self.phase {
            LaunchPhase::Dir => event is Dir || event is Failed,
            LaunchPhase::Socket => event is Done || event is Nothing,
            LaunchPhase::Rival => event is Done || event is Failed,
            LaunchPhase::Removal => event is Done || event is Failed,
            LaunchPhase::WorkingDir => event is Dir || event is Failed,
            LaunchPhase::Spawn => event is Done || event is Failed,
            LaunchPhase::Answer => event is Done || event is Failed,
            LaunchPhase::Poll => event is Exited || event is Nothing || event is Failed,
            LaunchPhase::Pause => event is Done,
            LaunchPhase::Kill => event is Done || event is Failed,
            LaunchPhase::Over => false,
        }
    }

    /// What a client does next, given what came of its last action.
    pub open spec fn step(self, now_ms: u64, event: LaunchEventView) -> (
        LaunchView,
        LaunchActionView,
    ) {
        match (self.phase, event) {
            // A failure ends the launch, except that a socket at which nobody
            // answers is stale, and that a new server may need time.
            (LaunchPhase::Rival, LaunchEventView::Failed(_)) => (
                self.at(LaunchPhase::Removal),
                LaunchActionView::RemoveSocket,
            ),
            (LaunchPhase::Answer, LaunchEventView::Failed(_)) => (
                self.at(LaunchPhase::Poll),
                LaunchActionView::PollServer,
            ),
            (LaunchPhase::Kill, _) => self.finish(Err(SessionFault::StartTimeout(self.name))),
            (_, LaunchEventView::Failed(fault)) => self.finish(Err(fault)),
            (LaunchPhase::Dir, LaunchEventView::Dir(dir)) => {
                let socket = socket_file(dir, self.name);
                if socket.len() >= MAX_SOCKET_PATH {
                    self.finish(Err(SessionFault::SocketPathTooLong(socket)))
                } else {
                    (
                        LaunchView { socket, phase: LaunchPhase::Socket, ..self },
                        LaunchActionView::FindSocket,
                    )
                }
            },
            (LaunchPhase::Socket, LaunchEventView::Done) => (
                self.at(LaunchPhase::Rival),
                LaunchActionView::Ping,
            ),
            (LaunchPhase::Socket, _) => self.spawn(),
            (LaunchPhase::Rival, _) => self.finish(Err(SessionFault::AlreadyRunning(self.name))),
            (LaunchPhase::Removal, _) => self.spawn(),
            (LaunchPhase::WorkingDir, LaunchEventView::Dir(dir)) => {
                let launch = LaunchView {
                    record: Some(joined(dir, self.record.unwrap_or(Seq::empty()))),
                    phase: LaunchPhase::Spawn,
                    ..self
                };
                (launch, LaunchActionView::Spawn(launch.arguments()))
            },
            (LaunchPhase::Spawn, _) => (
                LaunchView { spawned_ms: now_ms, phase: LaunchPhase::Answer, ..self },
                LaunchActionView::Ping,
            ),
            (LaunchPhase::Answer, _) => self.finish(Ok(())),
            (LaunchPhase::Poll, LaunchEventView::Exited(status)) => self.finish(
                Err(SessionFault::DaemonExited(status)),
            ),
            (LaunchPhase::Poll, _) => if now_ms >= self.spawned_ms + START_TIMEOUT_MS {
                (self.at(LaunchPhase::Kill), LaunchActionView::KillServer)
            } else {
                (self.at(LaunchPhase::Pause), LaunchActionView::Sleep(START_POLL_MS))
            },
            (_, _) => (self.at(LaunchPhase::Answer), LaunchActionView::Ping),
        }
    }
}

/// Why a launch does not even begin.
pub open spec fn launch_fault(platform: Platform, name: Seq<char>, command: Seq<Seq<char>>) -> Option<
    SessionFault,
> {
    if !valid_name(name) {
        Some(SessionFault::InvalidName)
    } else if platform is Other {
        Some(SessionFault::Unsupported)
    } else if command.len() == 0 {
        Some(SessionFault::NoCommand)
    } else {
        None
    }
}

/// Begins the start of a session; the first thing to do is to find the runtime
/// directory.
pub fn launch(
    platform: Platform,
    name: &str,
    command: Vec<String>,
    cwd: Option<Vec<u8>>,
    record: Option<Vec<u8>>,
    options: Options,
) -> (launch: Result<Launch, SessionError>)
    ensures
        match launch_fault(platform, name@, texts(command@)) {
            Some(fault) => launch matches Err(error) && error@ == fault,
            None => launch matches Ok(launch) && launch@ == (LaunchView {
                name: name@,
                command: texts(command@),
                cwd: path_view(cwd),
                record: path_view(record),
                options,
                socket: Seq::empty(),
                spawned_ms: 0,
                phase: LaunchPhase::Dir,
            }),
        },
{
    match validate_name(name) {
        Ok(()) => {},
        Err(error) => return Err(error),
    }
    if platform == Platform::Other {
        return Err(SessionError::Unsupported);
    }
    if command.is_empty() {
        return Err(SessionError::NoCommand);
    }
    Ok(
        Launch {
            name: name.to_owned(),
            command,
            cwd,
            record,
            options,
            socket: Vec::new(),
            spawned_ms: 0,
            phase: LaunchPhase::Dir,
        },
    )
}

fn push_flag(arguments: &mut Vec<Vec<u8>>, name: &str, value: Vec<u8>)
    ensures
        chunks(final(arguments)@) == chunks(old(arguments)@) + flag(name@, value@),
{
    let ghost before = arguments@;
    arguments.push(bytes_of(name));
    arguments.push(value);
    assert(chunks(arguments@) =~= chunks(before) + flag(name@, value@));
}

fn push_word(arguments: &mut Vec<Vec<u8>>, word: &str)
    ensures
        chunks(final(arguments)@) == chunks(old(arguments)@) + seq![encode_utf8(word@)],
{
    let ghost before = arguments@;
    arguments.push(bytes_of(word));
    assert(chunks(arguments@) =~= chunks(before) + seq![encode_utf8(word@)]);
}

fn push_optional_flag(arguments: &mut Vec<Vec<u8>>, name: &str, value: &Option<Vec<u8>>)
    ensures
        chunks(final(arguments)@) == chunks(old(arguments)@) + optional_flag(
            name@,
            path_view(*value),
        ),
{
    let ghost before = arguments@;
    match value {
        Some(value) => push_flag(arguments, name, copy_bytes(value.as_slice())),
        None => {
            assert(chunks(arguments@) =~= chunks(before) + Seq::<Seq<u8>>::empty());
        },
    }
}

impl Launch {
    /// The arguments of the server.
    fn arguments(&self) -> (arguments: Vec<Vec<u8>>)
        ensures
            chunks(arguments@) == self@.arguments(),
    {
        let mut arguments: Vec<Vec<u8>> = Vec::new();
        assert(chunks(arguments@) =~= Seq::<Seq<u8>>::empty());
        push_word(&mut arguments, "__serve");
        assert(chunks(arguments@) =~= seq![encode_utf8("__serve"@)]);
        push_flag(&mut arguments, "--socket", copy_bytes(self.socket.as_slice()));
        push_flag(&mut arguments, "--cols", bytes_of(number(self.options.cols as u64).as_str()));
        push_flag(&mut arguments, "--rows", bytes_of(number(self.options.rows as u64).as_str()));
        push_flag(
            &mut arguments,
            "--cell-width",
            bytes_of(number(self.options.cell_width as u64).as_str()),
        );
        push_flag(
            &mut arguments,
            "--cell-height",
            bytes_of(number(self.options.cell_height as u64).as_str()),
        );
        push_flag(
            &mut arguments,
            "--max-bytes",
            bytes_of(number(self.options.max_bytes as u64).as_str()),
        );
        if self.options.opentui_host {
            push_word(&mut arguments, "--opentui-host");
        } else {
            assert(chunks(arguments@) =~= chunks(arguments@) + Seq::<Seq<u8>>::empty());
        }
        push_optional_flag(&mut arguments, "--cwd", &self.cwd);
        push_optional_flag(&mut arguments, "--record", &self.record);
        push_word(&mut arguments, "--");
        let ghost fixed = chunks(arguments@);
        let ghost words = command_bytes(self@.command);
        let mut i: usize = 0;
        assert(fixed + words.take(0) =~= fixed);
        while i < self.command.len()
            invariant
                i <= self.command@.len(),
                words == command_bytes(self@.command),
                chunks(arguments@) == fixed + words.take(i as int),
            decreases self.command@.len() - i,
        {
            assert(words[i as int] == encode_utf8(self.command@[i as int]@));
            push_word(&mut arguments, self.command[i].as_str());
            assert(fixed + words.take(i as int) + seq![words[i as int]] =~= fixed + words.take(
                i + 1,
            ));
            i += 1;
        }
        assert(words.take(i as int) =~= words);
        arguments
    }

    fn finish(&mut self, result: Result<(), SessionError>) -> (action: LaunchAction)
        ensures
            final(self)@ == old(self)@.at(LaunchPhase::Over),
            action == LaunchAction::Finish(result),
    {
        self.phase = LaunchPhase::Over;
        LaunchAction::Finish(result)
    }

    fn spawn(&mut self) -> (action: LaunchAction)
        ensures
            (final(self)@, action@) == old(self)@.spawn(),
    {
        let relative = match &self.record {
            Some(record) => !is_absolute(record.as_slice()),
            None => false,
        };
        if relative {
            self.phase = LaunchPhase::WorkingDir;
            LaunchAction::FindWorkingDir
        } else {
            let arguments = self.arguments();
            self.phase = LaunchPhase::Spawn;
            LaunchAction::Spawn(arguments)
        }
    }

    /// What a client does next, given what came of its last action.
    pub fn step(&mut self, now_ms: u64, event: LaunchEvent) -> (action: LaunchAction)
        requires
            old(self)@.expects(event@),
        ensures
            (final(self)@, action@) == old(self)@.step(now_ms, event@),
    {
        match (self.phase, event) {
            (LaunchPhase::Rival, LaunchEvent::Failed(_)) => {
                self.phase = LaunchPhase::Removal;
                LaunchAction::RemoveSocket
            },
            (LaunchPhase::Answer, LaunchEvent::Failed(_)) => {
                self.phase = LaunchPhase::Poll;
                LaunchAction::PollServer
            },
            (LaunchPhase::Kill, _) => {
                let name = self.name.clone();
                self.finish(Err(SessionError::StartTimeout(name)))
            },
            (_, LaunchEvent::Failed(error)) => self.finish(Err(error)),
            (LaunchPhase::Dir, LaunchEvent::Dir(dir)) => {
                let socket = socket_path(dir.as_slice(), self.name.as_str());
                match ensure_socket_path(socket.as_slice()) {
                    Ok(()) => {
                        self.socket = socket;
                        self.phase = LaunchPhase::Socket;
                        LaunchAction::FindSocket
                    },
                    Err(error) => self.finish(Err(error)),
                }
            },
            (LaunchPhase::Socket, LaunchEvent::Done) => {
                self.phase = LaunchPhase::Rival;
                LaunchAction::Ping
            },
            (LaunchPhase::Socket, _) => self.spawn(),
            (LaunchPhase::Rival, _) => {
                let name = self.name.clone();
                self.finish(Err(SessionError::AlreadyRunning(name)))
            },
            (LaunchPhase::Removal, _) => self.spawn(),
            (LaunchPhase::WorkingDir, LaunchEvent::Dir(dir)) => {
                let record = match &self.record {
                    Some(record) => join(dir.as_slice(), record.as_slice()),
                    None => join(dir.as_slice(), Vec::new().as_slice()),
                };
                self.record = Some(record);
                self.phase = LaunchPhase::Spawn;
                LaunchAction::Spawn(self.arguments())
            },
            (LaunchPhase::Spawn, _) => {
                self.spawned_ms = now_ms;
                self.phase = LaunchPhase::Answer;
                LaunchAction::Ping
            },
            (LaunchPhase::Answer, _) => self.finish(Ok(())),
            (LaunchPhase::Poll, LaunchEvent::Exited(status)) => self.finish(
                Err(SessionError::DaemonExited(status)),
            ),
            (LaunchPhase::Poll, _) => {
                if now_ms >= self.spawned_ms && now_ms - self.spawned_ms >= START_TIMEOUT_MS {
                    self.phase = LaunchPhase::Kill;
                    LaunchAction::KillServer
                } else {
                    self.phase = LaunchPhase::Pause;
                    LaunchAction::Sleep(START_POLL_MS)
                }
            },
            (_, _) => {
                self.phase = LaunchPhase::Answer;
                LaunchAction::Ping
            },
        }
    }

    /// The path of the socket, once the runtime directory is known.
    pub fn socket(&self) -> (socket: &[u8])
        ensures
            socket@ == self@.socket,
    {
        self.socket.as_slice()
    }
}

/// A launch succeeds only when the new server has answered, and it gives up
/// only when the server has exited, or has been killed after the time for it
/// had passed.
pub proof fn law_launch_ends_for_a_reason(launch: LaunchView, now_ms: u64, event: LaunchEventView)
    requires
        launch.expects(event),
    ensures
        launch.step(now_ms, event).1 == LaunchActionView::Finish(Ok(())) <==> launch.phase
            == LaunchPhase::Answer && event is Done,
        launch.step(now_ms, event).1 is KillServer <==> launch.phase == LaunchPhase::Poll
            && event is Nothing && now_ms >= launch.spawned_ms + START_TIMEOUT_MS,
        launch.phase == LaunchPhase::Kill ==> launch.step(now_ms, event).1
            == LaunchActionView::Finish(Err(SessionFault::StartTimeout(launch.name))),
        launch.phase == LaunchPhase::Poll && event is Exited ==> launch.step(now_ms, event).1
            == LaunchActionView::Finish(Err(SessionFault::DaemonExited(event->Exited_0))),
{
}

/// A name in use is left alone: where a session of the same name answers, the
/// launch ends with an error, and neither is its socket removed nor a server
/// started. A socket at which nobody answers is removed before one is.
pub proof fn law_running_session_is_left_alone(
    launch: LaunchView,
    now_ms: u64,
    event: LaunchEventView,
)
    requires
        launch.phase == LaunchPhase::Rival,
        launch.expects(event),
    ensures
        event is Done ==> launch.step(now_ms, event) == (
            launch.at(LaunchPhase::Over),
            LaunchActionView::Finish(Err(SessionFault::AlreadyRunning(launch.name))),
        ),
        event is Failed ==> launch.step(now_ms, event) == (
            launch.at(LaunchPhase::Removal),
            LaunchActionView::RemoveSocket,
        ),
{
}

/// The phases from the start of the server on.
pub open spec fn started(phase: LaunchPhase) -> bool {
    phase is Spawn || phase is Answer || phase is Poll || phase is Pause || phase is Kill
        || phase is Over
}

/// A launch starts one server at most: what starts it leads past the point from
/// which no step does, and there is no way back.
pub proof fn law_server_is_started_once(launch: LaunchView, now_ms: u64, event: LaunchEventView)
    requires
        launch.expects(event),
    ensures
        launch.step(now_ms, event).1 is Spawn ==> !started(launch.phase) && started(
            launch.step(now_ms, event).0.phase,
        ),
        started(launch.phase) ==> started(launch.step(now_ms, event).0.phase),
{
}

/// A launch begins where the session has a name, where there are sockets, and
/// where there is a command. What is missing is told, the first of these first.
pub proof fn law_launch_begins_or_tells_why(
    platform: Platform,
    name: Seq<char>,
    command: Seq<Seq<char>>,
)
    ensures
        ({
            let fault = launch_fault(platform, name, command);
            let unix = platform == Platform::Unix;
            &&& fault is None <==> valid_name(name) && unix && command.len() > 0
            &&& !valid_name(name) ==> fault == Some(SessionFault::InvalidName)
            &&& valid_name(name) && !unix ==> fault == Some(SessionFault::Unsupported)
            &&& valid_name(name) && unix && command.len() == 0 ==> fault == Some(
                SessionFault::NoCommand,
            )
        }),
{
}

/// The server is told everything that the launch was: where its socket is, how
/// large the terminal and its cells are, how much output it keeps, whether it
/// answers for a host, where the command runs, where it is recorded, and, last and
/// unchanged, the command itself.
pub proof fn law_server_is_told_everything(launch: LaunchView, i: int)
    ensures
        ({
            let words = launch.arguments();
            let n = launch.command.len() as int;
            let hosted = if launch.options.opentui_host { 1int } else { 0int };
            let placed = if launch.cwd is Some { 2int } else { 0int };
            let recorded = if launch.record is Some { 2int } else { 0int };
            &&& words.len() == 14 + hosted + placed + recorded + n
            &&& words[0] == encode_utf8("__serve"@)
            &&& words[1] == encode_utf8("--socket"@) && words[2] == launch.socket
            &&& words[3] == encode_utf8("--cols"@) && words[4] == encode_utf8(
                decimal(launch.options.cols as nat),
            )
            &&& words[5] == encode_utf8("--rows"@) && words[6] == encode_utf8(
                decimal(launch.options.rows as nat),
            )
            &&& words[7] == encode_utf8("--cell-width"@) && words[8] == encode_utf8(
                decimal(launch.options.cell_width as nat),
            )
            &&& words[9] == encode_utf8("--cell-height"@) && words[10] == encode_utf8(
                decimal(launch.options.cell_height as nat),
            )
            &&& words[11] == encode_utf8("--max-bytes"@) && words[12] == encode_utf8(
                decimal(launch.options.max_bytes as nat),
            )
            &&& launch.options.opentui_host ==> words[13] == encode_utf8("--opentui-host"@)
            &&& launch.cwd matches Some(cwd) ==> words[13 + hosted] == encode_utf8("--cwd"@)
                && words[14 + hosted] == cwd
            &&& launch.record matches Some(record) ==> words[13 + hosted + placed] == encode_utf8(
                "--record"@,
            ) && words[14 + hosted + placed] == record
            &&& words[13 + hosted + placed + recorded] == encode_utf8("--"@)
            &&& 0 <= i < n ==> words[14 + hosted + placed + recorded + i] == encode_utf8(
                launch.command[i],
            )
        }),
{
}

/// A launch takes one step after the other: the socket is that of the name in the
/// runtime directory, and its path less than a hundred bytes long; one that exists
/// is asked to answer, and where none does, or a stale one is gone, the server is
/// started and asked to answer, again and again until it has had five seconds.
pub proof fn law_launch_goes_step_by_step(
    launch: LaunchView,
    now_ms: u64,
    event: LaunchEventView,
)
    requires
        launch.expects(event),
        !(event is Failed),
    ensures
        ({
            let (next, action) = launch.step(now_ms, event);
            match launch.phase {
                LaunchPhase::Dir => {
                    let socket = socket_file(event->Dir_0, launch.name);
                    if socket.len() >= 100 {
                        action == LaunchActionView::Finish(
                            Err::<(), SessionFault>(SessionFault::SocketPathTooLong(socket)),
                        )
                    } else {
                        action is FindSocket && next.socket == socket && next.phase
                            == LaunchPhase::Socket
                    }
                },
                LaunchPhase::Socket => if event is Done {
                    action is Ping && next.phase == LaunchPhase::Rival
                } else {
                    action is Spawn || action is FindWorkingDir
                },
                LaunchPhase::Removal => action is Spawn || action is FindWorkingDir,
                LaunchPhase::WorkingDir => action is Spawn && next.phase == LaunchPhase::Spawn,
                LaunchPhase::Spawn => action is Ping && next.phase == LaunchPhase::Answer
                    && next.spawned_ms == now_ms,
                LaunchPhase::Poll => if event is Exited {
                    action is Finish
                } else if now_ms - launch.spawned_ms >= 5000 {
                    action is KillServer && next.phase == LaunchPhase::Kill
                } else {
                    action == LaunchActionView::Sleep(20) && next.phase == LaunchPhase::Pause
                        && next.spawned_ms == launch.spawned_ms
                },
                LaunchPhase::Pause => action is Ping && next.phase == LaunchPhase::Answer
                    && next.spawned_ms == launch.spawned_ms,
                _ => action is Finish,
            }
        }),
{
}

/// A failure ends a launch with what failed, but for two: where nobody answers at
/// an old socket it is removed, and where the new server does not answer yet, it
/// is looked after.
pub proof fn law_failure_ends_a_launch(launch: LaunchView, now_ms: u64, fault: SessionFault)
    requires
        launch.expects(LaunchEventView::Failed(fault)),
    ensures
        ({
            let (next, action) = launch.step(now_ms, LaunchEventView::Failed(fault));
            match launch.phase {
                LaunchPhase::Rival => action is RemoveSocket && next.phase == LaunchPhase::Removal,
                LaunchPhase::Answer => action is PollServer && next.phase == LaunchPhase::Poll,
                LaunchPhase::Kill => action == LaunchActionView::Finish(
                    Err::<(), SessionFault>(SessionFault::StartTimeout(launch.name)),
                ),
                _ => action == LaunchActionView::Finish(Err::<(), SessionFault>(fault)),
            }
        }),
{
}

/// The server is started with what the launch knows, and nothing of that is
/// changed on the way but the path of a recording: one that does not start at the
/// root is put behind the working directory first.
pub proof fn law_launch_keeps_what_it_was_given(
    launch: LaunchView,
    now_ms: u64,
    event: LaunchEventView,
)
    requires
        launch.expects(event),
    ensures
        ({
            let (next, action) = launch.step(now_ms, event);
            let relative = launch.record is Some && (launch.record->Some_0.len() == 0
                || launch.record->Some_0[0] != 0x2f);
            &&& next.name == launch.name && next.command == launch.command
            &&& next.cwd == launch.cwd && next.options == launch.options
            &&& action matches LaunchActionView::Spawn(words) ==> words == next.arguments()
            &&& launch.phase != LaunchPhase::Dir ==> next.socket == launch.socket
            &&& launch.phase == LaunchPhase::WorkingDir && event is Dir && launch.record is Some
                ==> next.record == Some(joined(event->Dir_0, launch.record->Some_0))
            &&& launch.phase != LaunchPhase::WorkingDir ==> next.record == launch.record
            &&& (launch.phase == LaunchPhase::Socket && event is Nothing) || (launch.phase
                == LaunchPhase::Removal && event is Done) ==> (action is FindWorkingDir <==> relative)
        }),
{
}

/// The values of what a client does and of what comes of it hold everything that
/// those do.
pub proof fn law_launch_values_are_complete(
    action: LaunchAction,
    event: LaunchEvent,
    path: Option<Vec<u8>>,
)
    ensures
        match action {
            LaunchAction::Spawn(words) => action@ is Spawn && action@->Spawn_0.len() == words@.len()
                && forall|i: int|
                0 <= i < words@.len() ==> #[trigger] action@->Spawn_0[i] == words@[i]@,
            LaunchAction::Sleep(ms) => action@ == LaunchActionView::Sleep(ms),
            LaunchAction::Finish(Ok(done)) => action@ == LaunchActionView::Finish(Ok(done)),
            LaunchAction::Finish(Err(error)) => action@ == LaunchActionView::Finish(Err(error@)),
            LaunchAction::FindRuntimeDir => action@ is FindRuntimeDir,
            LaunchAction::FindSocket => action@ is FindSocket,
            LaunchAction::Ping => action@ is Ping,
            LaunchAction::RemoveSocket => action@ is RemoveSocket,
            LaunchAction::FindWorkingDir => action@ is FindWorkingDir,
            LaunchAction::PollServer => action@ is PollServer,
            LaunchAction::KillServer => action@ is KillServer,
        },
        match event {
            LaunchEvent::Dir(dir) => event@ == LaunchEventView::Dir(dir@),
            LaunchEvent::Exited(status) => event@ == LaunchEventView::Exited(status@),
            LaunchEvent::Failed(error) => event@ == LaunchEventView::Failed(error@),
            LaunchEvent::Done => event@ is Done,
            LaunchEvent::Nothing => event@ is Nothing,
        },
        path is None <==> path_view(path) is None,
        path matches Some(bytes) ==> path_view(path) == Some(bytes@),
{
}

/// Whatever can come of what a client does is something that it expects.
pub proof fn law_launch_expects_what_can_happen(
    launch: LaunchView,
    dir: Seq<u8>,
    status: Seq<char>,
    fault: SessionFault,
)
    ensures
        launch.phase is Dir || launch.phase is WorkingDir ==> launch.expects(
            LaunchEventView::Dir(dir),
        ) && launch.expects(LaunchEventView::Failed(fault)),
        launch.phase is Socket ==> launch.expects(LaunchEventView::Done) && launch.expects(
            LaunchEventView::Nothing,
        ),
        launch.phase is Rival || launch.phase is Removal || launch.phase is Spawn
            || launch.phase is Answer || launch.phase is Kill ==> launch.expects(
            LaunchEventView::Done,
        ) && launch.expects(LaunchEventView::Failed(fault)),
        launch.phase is Poll ==> launch.expects(LaunchEventView::Exited(status)) && launch.expects(
            LaunchEventView::Nothing,
        ) && launch.expects(LaunchEventView::Failed(fault)),
        launch.phase is Pause ==> launch.expects(LaunchEventView::Done),
{
}

} // verus!
