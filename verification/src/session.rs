//! The protocol of a session: its names, its files, and what its clients and
//! its server say to each other.

use vstd::prelude::*;
use vstd::string::*;
use vstd::utf8::*;
use crate::frame::{Frame, FrameView};
use crate::text::{bytes_of, chunks, copy_bytes, debug_text, decimal, lossy, lossy_text};
use crate::text::{law_numbers_are_told_apart, number, quoted, texts};

verus! {

/// The longest request that a server reads.
pub const MAX_REQUEST_BYTES: usize = 1048576;

/// The length from which the path of a socket is refused.
pub const MAX_SOCKET_PATH: usize = 100;

/// The permissions of the runtime directory: its owner alone may use it.
pub const RUNTIME_DIR_MODE: u32 = 0o700;

/// The permissions of a socket: its owner alone may use it.
pub const SOCKET_MODE: u32 = 0o600;

/// Where the library runs.
#[derive(Clone, Copy, Debug, PartialEq, Eq, Structural)]
pub enum Platform {
    Unix,
    Other,
}

/// What a session is started with.
#[derive(Clone, Copy, Debug, PartialEq, Eq, Structural)]
pub struct Options {
    pub cols: u16,
    pub rows: u16,
    pub cell_width: u16,
    pub cell_height: u16,
    /// How many of the latest bytes of output are kept.
    pub max_bytes: usize,
    /// Whether startup queries of OpenTUI applications are answered.
    pub opentui_host: bool,
}

/// What a client asks of a session.
#[derive(Debug, PartialEq, Eq)]
pub enum Request {
    /// Answer at all.
    Ping,
    /// Answer once the screen shows a text.
    Wait { text: String, timeout_ms: u64 },
    /// Type some pieces of input, with a pause between them.
    Send { input: Vec<Vec<u8>>, pace_ms: u64 },
    /// Show the screen once the output has settled.
    Snapshot { settle_ms: u64, deadline_ms: u64 },
    /// End the session.
    Close,
}

/// A request as a mathematical value.
pub enum RequestView {
    Ping,
    Wait { text: Seq<char>, timeout_ms: u64 },
    Send { input: Seq<Seq<u8>>, pace_ms: u64 },
    Snapshot { settle_ms: u64, deadline_ms: u64 },
    Close,
}

impl View for Request {
    type V = RequestView;

    open spec fn view(&self) -> RequestView {
        match *self {
            Request::Ping => RequestView::Ping,
            Request::Wait { text, timeout_ms } => RequestView::Wait { text: text@, timeout_ms },
            Request::Send { input, pace_ms } => RequestView::Send {
                input: chunks(input@),
                pace_ms,
            },
            Request::Snapshot { settle_ms, deadline_ms } => RequestView::Snapshot {
                settle_ms,
                deadline_ms,
            },
            Request::Close => RequestView::Close,
        }
    }
}

/// A screen and the output that led to it.
#[derive(Debug, PartialEq, Eq)]
pub struct Captured {
    pub frame: Frame,
    pub ansi: Vec<u8>,
}

/// A captured screen as a mathematical value.
pub struct CapturedView {
    pub frame: FrameView,
    pub ansi: Seq<u8>,
}

impl View for Captured {
    type V = CapturedView;

    open spec fn view(&self) -> CapturedView {
        CapturedView { frame: self.frame@, ansi: self.ansi@ }
    }
}

/// What a server answers.
#[derive(Debug, PartialEq, Eq)]
pub struct Response {
    pub error: Option<String>,
    pub captured: Option<Captured>,
}

/// An answer as a mathematical value.
pub struct ResponseView {
    pub error: Option<Seq<char>>,
    pub captured: Option<CapturedView>,
}

impl View for Response {
    type V = ResponseView;

    open spec fn view(&self) -> ResponseView {
        ResponseView {
            error: match self.error {
                Some(error) => Some(error@),
                None => None,
            },
            captured: match self.captured {
                Some(captured) => Some(captured@),
                None => None,
            },
        }
    }
}

// ------------------------------------------------------------------ errors

/// Why a session could not do what was asked.
#[derive(Debug, PartialEq, Eq)]
pub enum SessionError {
    Unsupported,
    InvalidName,
    NoCommand,
    SocketPathTooLong(Vec<u8>),
    NotADirectory(Vec<u8>),
    NotOwned(Vec<u8>),
    Uninspected(Vec<u8>, String),
    AlreadyRunning(String),
    DaemonExited(String),
    StartTimeout(String),
    CommandExited,
    EndedBefore(String),
    WaitTimeout(String),
    NoSnapshot,
    RequestTooLong,
    InvalidRequest(String),
    UnreadRequest(String),
    /// The server answered with an error.
    Remote(String),
    /// A file, a process or a connection failed.
    Outside(String),
}

/// Why a session could not do what was asked, as a mathematical value.
pub enum SessionFault {
    Unsupported,
    InvalidName,
    NoCommand,
    SocketPathTooLong(Seq<u8>),
    NotADirectory(Seq<u8>),
    NotOwned(Seq<u8>),
    Uninspected(Seq<u8>, Seq<char>),
    AlreadyRunning(Seq<char>),
    DaemonExited(Seq<char>),
    StartTimeout(Seq<char>),
    CommandExited,
    EndedBefore(Seq<char>),
    WaitTimeout(Seq<char>),
    NoSnapshot,
    RequestTooLong,
    InvalidRequest(Seq<char>),
    UnreadRequest(Seq<char>),
    Remote(Seq<char>),
    Outside(Seq<char>),
}

impl View for SessionError {
    type V = SessionFault;

    open spec fn view(&self) -> SessionFault {
        match *self {
            SessionError::Unsupported => SessionFault::Unsupported,
            SessionError::InvalidName => SessionFault::InvalidName,
            SessionError::NoCommand => SessionFault::NoCommand,
            SessionError::SocketPathTooLong(path) => SessionFault::SocketPathTooLong(path@),
            SessionError::NotADirectory(path) => SessionFault::NotADirectory(path@),
            SessionError::NotOwned(path) => SessionFault::NotOwned(path@),
            SessionError::Uninspected(path, cause) => SessionFault::Uninspected(path@, cause@),
            SessionError::AlreadyRunning(name) => SessionFault::AlreadyRunning(name@),
            SessionError::DaemonExited(status) => SessionFault::DaemonExited(status@),
            SessionError::StartTimeout(name) => SessionFault::StartTimeout(name@),
            SessionError::CommandExited => SessionFault::CommandExited,
            SessionError::EndedBefore(text) => SessionFault::EndedBefore(text@),
            SessionError::WaitTimeout(text) => SessionFault::WaitTimeout(text@),
            SessionError::NoSnapshot => SessionFault::NoSnapshot,
            SessionError::RequestTooLong => SessionFault::RequestTooLong,
            SessionError::InvalidRequest(cause) => SessionFault::InvalidRequest(cause@),
            SessionError::UnreadRequest(cause) => SessionFault::UnreadRequest(cause@),
            SessionError::Remote(message) => SessionFault::Remote(message@),
            SessionError::Outside(message) => SessionFault::Outside(message@),
        }
    }
}

impl SessionFault {
    /// What a user is told.
    pub open spec fn told(self) -> Seq<char> {
        match self {
            SessionFault::Unsupported => "persistent sessions require Unix sockets"@,
            SessionFault::InvalidName =>
                "session names may contain only ASCII letters, digits, '.', '-', and '_'"@,
            SessionFault::NoCommand => "provide a command after --"@,
            SessionFault::SocketPathTooLong(path) =>
                "session socket path is too long for portable Unix sockets: "@ + lossy_text(path)
                    + "; set CELLSHOT_RUNTIME_DIR to a shorter directory"@,
            SessionFault::NotADirectory(path) =>
                "session runtime path must be a real directory: "@ + lossy_text(path),
            SessionFault::NotOwned(path) =>
                "session runtime directory is not owned by the current user: "@ + lossy_text(path),
            SessionFault::Uninspected(path, cause) => "inspect "@ + lossy_text(path) + ": "@
                + cause,
            SessionFault::AlreadyRunning(name) => "session "@ + debug_text(name)
                + " is already running"@,
            SessionFault::DaemonExited(status) =>
                "session daemon exited before becoming ready: "@ + status,
            SessionFault::StartTimeout(name) => "timed out starting session "@ + debug_text(name),
            SessionFault::CommandExited => "session command has exited"@,
            SessionFault::EndedBefore(text) =>
                "session ended before visible terminal included "@ + debug_text(text),
            SessionFault::WaitTimeout(text) =>
                "timed out waiting for visible terminal text "@ + debug_text(text),
            SessionFault::NoSnapshot => "session did not return a snapshot"@,
            SessionFault::RequestTooLong => "session request exceeds 1 MiB"@,
            SessionFault::InvalidRequest(cause) => "invalid session request: "@ + cause,
            SessionFault::UnreadRequest(cause) => "failed to read session request: "@ + cause,
            SessionFault::Remote(message) => message,
            SessionFault::Outside(message) => message,
        }
    }
}

impl SessionError {
    /// What a user is told.
    pub fn message(&self) -> (message: String)
        ensures
            message@ == self@.told(),
    {
        match self {
            SessionError::Unsupported => "persistent sessions require Unix sockets".to_owned(),
            SessionError::InvalidName =>
                "session names may contain only ASCII letters, digits, '.', '-', and '_'".to_owned(),
            SessionError::NoCommand => "provide a command after --".to_owned(),
            SessionError::SocketPathTooLong(path) =>
                "session socket path is too long for portable Unix sockets: ".to_owned().concat(
                lossy(path.as_slice()).as_str(),
            ).concat("; set CELLSHOT_RUNTIME_DIR to a shorter directory"),
            SessionError::NotADirectory(path) =>
                "session runtime path must be a real directory: ".to_owned().concat(
                lossy(path.as_slice()).as_str(),
            ),
            SessionError::NotOwned(path) =>
                "session runtime directory is not owned by the current user: ".to_owned().concat(
                lossy(path.as_slice()).as_str(),
            ),
            SessionError::Uninspected(path, cause) => "inspect ".to_owned().concat(
                lossy(path.as_slice()).as_str(),
            ).concat(": ").concat(cause.as_str()),
            SessionError::AlreadyRunning(name) => "session ".to_owned().concat(
                quoted(name.as_str()).as_str(),
            ).concat(" is already running"),
            SessionError::DaemonExited(status) =>
                "session daemon exited before becoming ready: ".to_owned().concat(status.as_str()),
            SessionError::StartTimeout(name) => "timed out starting session ".to_owned().concat(
                quoted(name.as_str()).as_str(),
            ),
            SessionError::CommandExited => "session command has exited".to_owned(),
            SessionError::EndedBefore(text) =>
                "session ended before visible terminal included ".to_owned().concat(
                quoted(text.as_str()).as_str(),
            ),
            SessionError::WaitTimeout(text) =>
                "timed out waiting for visible terminal text ".to_owned().concat(
                quoted(text.as_str()).as_str(),
            ),
            SessionError::NoSnapshot => "session did not return a snapshot".to_owned(),
            SessionError::RequestTooLong => "session request exceeds 1 MiB".to_owned(),
            SessionError::InvalidRequest(cause) => "invalid session request: ".to_owned().concat(
                cause.as_str(),
            ),
            SessionError::UnreadRequest(cause) =>
                "failed to read session request: ".to_owned().concat(cause.as_str()),
            SessionError::Remote(message) => message.clone(),
            SessionError::Outside(message) => message.clone(),
        }
    }
}

// ------------------------------------------------------------------- names

/// The characters of a session name.
pub open spec fn name_char(c: char) -> bool {
    ||| 'a' <= c <= 'z'
    ||| 'A' <= c <= 'Z'
    ||| '0' <= c <= '9'
    ||| c == '-'
    ||| c == '_'
    ||| c == '.'
}

/// Whether a text can name a session.
pub open spec fn valid_name(name: Seq<char>) -> bool {
    name.len() > 0 && forall|i: int| 0 <= i < name.len() ==> name_char(#[trigger] name[i])
}

/// Accepts a name of ASCII letters, digits, `.`, `-` and `_`, and refuses
/// every other.
pub fn validate_name(name: &str) -> (valid: Result<(), SessionError>)
    ensures
        valid is Ok == valid_name(name@),
        valid matches Err(error) ==> error@ == SessionFault::InvalidName,
{
    if name.is_empty() {
        return Err(SessionError::InvalidName);
    }
    let mut good: bool = true;
    for c in it: name.chars()
        invariant
            it.seq() == name@,
            good == (forall|i: int| 0 <= i < it.index() ==> name_char(#[trigger] name@[i])),
    {
        assert(c == name@[it.index() as int]);
        let fits = ('a' <= c && c <= 'z') || ('A' <= c && c <= 'Z') || ('0' <= c && c <= '9') || c
            == '-' || c == '_' || c == '.';
        if !fits {
            good = false;
        }
    }
    if good {
        Ok(())
    } else {
        Err(SessionError::InvalidName)
    }
}

// ------------------------------------------------------------------- paths

/// Whether a path starts at the root.
pub open spec fn absolute(path: Seq<u8>) -> bool {
    path.len() > 0 && path[0] == 0x2f
}

/// A path below a directory, as Unix paths are joined: an absolute path stands
/// for itself, and a slash separates the two where there is none yet.
pub open spec fn joined(dir: Seq<u8>, path: Seq<u8>) -> Seq<u8> {
    if absolute(path) {
        path
    } else if dir.len() > 0 && dir.last() != 0x2f {
        dir.push(0x2f) + path
    } else {
        dir + path
    }
}

/// The path of the socket of a session.
pub open spec fn socket_file(dir: Seq<u8>, name: Seq<char>) -> Seq<u8> {
    joined(dir, encode_utf8(name + ".sock"@))
}

/// Whether a path starts at the root.
pub fn is_absolute(path: &[u8]) -> (is: bool)
    ensures
        is == absolute(path@),
{
    path.len() > 0 && path[0] == 0x2f
}

/// A path below a directory.
pub fn join(dir: &[u8], path: &[u8]) -> (whole: Vec<u8>)
    ensures
        whole@ == joined(dir@, path@),
{
    if is_absolute(path) {
        return copy_bytes(path);
    }
    let mut whole = copy_bytes(dir);
    if dir.len() > 0 && dir[dir.len() - 1] != 0x2f {
        whole.push(0x2f);
    }
    whole.extend_from_slice(path);
    assert(whole@ =~= joined(dir@, path@));
    whole
}

/// The path of the socket of a session.
pub fn socket_path(dir: &[u8], name: &str) -> (path: Vec<u8>)
    ensures
        path@ == socket_file(dir@, name@),
{
    let file = name.to_owned().concat(".sock");
    join(dir, bytes_of(file.as_str()).as_slice())
}

/// Refuses a path that is too long for a socket on some systems.
pub fn ensure_socket_path(path: &[u8]) -> (fits: Result<(), SessionError>)
    ensures
        fits is Ok == (path@.len() < MAX_SOCKET_PATH),
        fits matches Err(error) ==> error@ == SessionFault::SocketPathTooLong(path@),
{
    if path.len() >= MAX_SOCKET_PATH {
        return Err(SessionError::SocketPathTooLong(copy_bytes(path)));
    }
    Ok(())
}

/// The directory of the sockets of a user: the one that was chosen, or one of
/// the user's own below `/tmp`.
pub open spec fn socket_dir(chosen: Option<Seq<u8>>, euid: u32) -> Seq<u8> {
    match chosen {
        Some(dir) => dir,
        None => encode_utf8("/tmp/cellshot-"@ + decimal(euid as nat)),
    }
}

/// The bytes behind an optional path.
pub open spec fn path_view(path: Option<Vec<u8>>) -> Option<Seq<u8>> {
    match path {
        Some(path) => Some(path@),
        None => None,
    }
}

/// The directory of the sockets of a user.
pub fn runtime_dir(platform: Platform, chosen: Option<Vec<u8>>, euid: u32) -> (dir: Result<
    Vec<u8>,
    SessionError,
>)
    ensures
        dir is Ok == (platform is Unix),
        dir matches Ok(dir) ==> dir@ == socket_dir(path_view(chosen), euid),
        dir matches Err(error) ==> error@ == SessionFault::Unsupported,
{
    if platform != Platform::Unix {
        return Err(SessionError::Unsupported);
    }
    match chosen {
        Some(dir) => Ok(dir),
        None => {
            let path = "/tmp/cellshot-".to_owned().concat(number(euid as u64).as_str());
            Ok(bytes_of(path.as_str()))
        },
    }
}

/// What was found at the path of the runtime directory.
#[derive(Debug, PartialEq, Eq)]
pub enum Found {
    Missing,
    Existing { directory: bool, symlink: bool, owner: u32 },
    /// The path could not be inspected.
    Unknown(String),
}

/// What was found at the path of the runtime directory, as a mathematical
/// value.
pub enum FoundView {
    Missing,
    Existing { directory: bool, symlink: bool, owner: u32 },
    Unknown(Seq<char>),
}

impl View for Found {
    type V = FoundView;

    open spec fn view(&self) -> FoundView {
        match *self {
            Found::Missing => FoundView::Missing,
            Found::Existing { directory, symlink, owner } => FoundView::Existing {
                directory,
                symlink,
                owner,
            },
            Found::Unknown(cause) => FoundView::Unknown(cause@),
        }
    }
}

/// What is done with the runtime directory before its permissions are set.
#[derive(Clone, Copy, Debug, PartialEq, Eq, Structural)]
pub enum DirStep {
    /// It is made, for its owner alone.
    Create,
    /// It is used as it is.
    Use,
}

/// Accepts a directory that is no symbolic link and belongs to the user.
pub fn require_private_runtime_dir(
    path: &[u8],
    directory: bool,
    symlink: bool,
    owner: u32,
    euid: u32,
) -> (private: Result<(), SessionError>)
    ensures
        private is Ok == (directory && !symlink && owner == euid),
        private matches Err(error) ==> error@ == if !directory || symlink {
            SessionFault::NotADirectory(path@)
        } else {
            SessionFault::NotOwned(path@)
        },
{
    if !directory || symlink {
        return Err(SessionError::NotADirectory(copy_bytes(path)));
    }
    if owner != euid {
        return Err(SessionError::NotOwned(copy_bytes(path)));
    }
    Ok(())
}

/// What to do with the runtime directory.
pub open spec fn dir_step(path: Seq<u8>, found: FoundView, euid: u32) -> Result<
    DirStep,
    SessionFault,
> {
    match found {
        FoundView::Missing => Ok(DirStep::Create),
        FoundView::Unknown(cause) => Err(SessionFault::Uninspected(path, cause)),
        FoundView::Existing { directory, symlink, owner } => if !directory || symlink {
            Err(SessionFault::NotADirectory(path))
        } else if owner != euid {
            Err(SessionFault::NotOwned(path))
        } else {
            Ok(DirStep::Use)
        },
    }
}

/// What to do with the runtime directory: a missing one is made, and one that
/// somebody else could have put there is refused.
pub fn prepare_runtime_dir(path: &[u8], found: Found, euid: u32) -> (step: Result<
    DirStep,
    SessionError,
>)
    ensures
        match step {
            Ok(step) => dir_step(path@, found@, euid) == Ok::<DirStep, SessionFault>(step),
            Err(error) => dir_step(path@, found@, euid) == Err::<DirStep, SessionFault>(error@),
        },
{
    match found {
        Found::Missing => Ok(DirStep::Create),
        Found::Unknown(cause) => Err(SessionError::Uninspected(copy_bytes(path), cause)),
        Found::Existing { directory, symlink, owner } => {
            match require_private_runtime_dir(path, directory, symlink, owner, euid) {
                Ok(()) => Ok(DirStep::Use),
                Err(error) => Err(error),
            }
        },
    }
}

// ----------------------------------------------------------------- clients

/// A request to a session by its name.
#[derive(Debug, PartialEq, Eq)]
pub struct Call {
    pub name: String,
    pub request: Request,
}

/// A request to a session as a mathematical value.
pub struct CallView {
    pub name: Seq<char>,
    pub request: RequestView,
}

impl View for Call {
    type V = CallView;

    open spec fn view(&self) -> CallView {
        CallView { name: self.name@, request: self.request@ }
    }
}

/// What addressing a request to a name gives.
pub open spec fn call_of(name: Seq<char>, request: RequestView) -> Result<CallView, SessionFault> {
    if valid_name(name) {
        Ok(CallView { name, request })
    } else {
        Err(SessionFault::InvalidName)
    }
}

/// What a result of a call is as a mathematical value.
pub open spec fn call_view(call: Result<Call, SessionError>) -> Result<CallView, SessionFault> {
    match call {
        Ok(call) => Ok(call@),
        Err(error) => Err(error@),
    }
}

fn address(name: &str, request: Request) -> (call: Result<Call, SessionError>)
    ensures
        call_view(call) == call_of(name@, request@),
{
    match validate_name(name) {
        Ok(()) => Ok(Call { name: name.to_owned(), request }),
        Err(error) => Err(error),
    }
}

/// The request that waits for a text.
pub fn wait(name: &str, text: String, timeout_ms: u64) -> (call: Result<Call, SessionError>)
    ensures
        call_view(call) == call_of(name@, RequestView::Wait { text: text@, timeout_ms }),
{
    address(name, Request::Wait { text, timeout_ms })
}

/// The request that types some input.
pub fn send(name: &str, input: Vec<Vec<u8>>, pace_ms: u64) -> (call: Result<Call, SessionError>)
    ensures
        call_view(call) == call_of(name@, RequestView::Send { input: chunks(input@), pace_ms }),
{
    address(name, Request::Send { input, pace_ms })
}

/// The request for the screen.
pub fn snapshot(name: &str, settle_ms: u64, deadline_ms: u64) -> (call: Result<
    Call,
    SessionError,
>)
    ensures
        call_view(call) == call_of(name@, RequestView::Snapshot { settle_ms, deadline_ms }),
{
    address(name, Request::Snapshot { settle_ms, deadline_ms })
}

/// The request that ends a session.
pub fn close(name: &str) -> (call: Result<Call, SessionError>)
    ensures
        call_view(call) == call_of(name@, RequestView::Close),
{
    address(name, Request::Close)
}

/// The socket to which a request goes, where it can be reached.
pub open spec fn socket_of(platform: Platform, name: Seq<char>, dir: Seq<u8>) -> Result<
    Seq<u8>,
    SessionFault,
> {
    let path = socket_file(dir, name);
    if !valid_name(name) {
        Err(SessionFault::InvalidName)
    } else if platform is Other {
        Err(SessionFault::Unsupported)
    } else if path.len() >= MAX_SOCKET_PATH {
        Err(SessionFault::SocketPathTooLong(path))
    } else {
        Ok(path)
    }
}

/// The socket to which a request goes.
pub fn request(platform: Platform, name: &str, dir: &[u8]) -> (socket: Result<
    Vec<u8>,
    SessionError,
>)
    ensures
        match socket {
            Ok(socket) => socket_of(platform, name@, dir@) == Ok::<Seq<u8>, SessionFault>(socket@),
            Err(error) => socket_of(platform, name@, dir@) == Err::<Seq<u8>, SessionFault>(error@),
        },
{
    match validate_name(name) {
        Ok(()) => {},
        Err(error) => return Err(error),
    }
    if platform == Platform::Other {
        return Err(SessionError::Unsupported);
    }
    let path = socket_path(dir, name);
    match ensure_socket_path(path.as_slice()) {
        Ok(()) => Ok(path),
        Err(error) => Err(error),
    }
}

/// What a client makes of an answer: an error that it carries is the client's
/// own.
pub fn accept(response: Response) -> (accepted: Result<Response, SessionError>)
    ensures
        match response.error {
            Some(error) => accepted matches Err(e) && e@ == SessionFault::Remote(error@),
            None => accepted == Ok::<Response, SessionError>(response),
        },
{
    match response.error {
        Some(error) => Err(SessionError::Remote(error)),
        None => Ok(Response { error: None, captured: response.captured }),
    }
}

/// The screen that an answer carries.
pub open spec fn captured_of(response: ResponseView) -> Result<CapturedView, SessionFault> {
    match response.error {
        Some(error) => Err(SessionFault::Remote(error)),
        None => match response.captured {
            Some(captured) => Ok(captured),
            None => Err(SessionFault::NoSnapshot),
        },
    }
}

/// The screen that an answer to a snapshot carries.
pub fn accept_snapshot(response: Response) -> (captured: Result<Captured, SessionError>)
    ensures
        match captured {
            Ok(captured) => captured_of(response@) == Ok::<CapturedView, SessionFault>(captured@),
            Err(error) => captured_of(response@) == Err::<CapturedView, SessionFault>(error@),
        },
{
    match accept(response) {
        Err(error) => Err(error),
        Ok(response) => match response.captured {
            Some(captured) => Ok(captured),
            None => Err(SessionError::NoSnapshot),
        },
    }
}

// ------------------------------------------------------------------ server

/// The terminal and the command that a session runs.
#[derive(Debug, PartialEq, Eq)]
pub struct ServePlan {
    pub program: String,
    pub arguments: Vec<String>,
    pub rows: u16,
    pub cols: u16,
    pub pixel_width: u16,
    pub pixel_height: u16,
    /// What the environment says of the terminal.
    pub environment: Vec<(String, String)>,
}

/// Whether a server can start, and what keeps it from starting.
pub open spec fn serve_fault(
    platform: Platform,
    socket: Seq<u8>,
    command: Seq<Seq<char>>,
) -> Option<SessionFault> {
    if platform is Other {
        Some(SessionFault::Unsupported)
    } else if socket.len() >= MAX_SOCKET_PATH {
        Some(SessionFault::SocketPathTooLong(socket))
    } else if command.len() == 0 {
        Some(SessionFault::NoCommand)
    } else {
        None
    }
}

/// The terminal and the command of a session: the first word of the command is
/// the program, the rest are its arguments.
pub fn serve(platform: Platform, socket: &[u8], command: &Vec<String>, options: &Options) -> (plan:
    Result<ServePlan, SessionError>)
    ensures
        match serve_fault(platform, socket@, texts(command@)) {
            Some(fault) => plan matches Err(error) && error@ == fault,
            None => plan matches Ok(plan) && {
                &&& plan.program@ == texts(command@)[0]
                &&& texts(plan.arguments@) == texts(command@).drop_first()
                &&& plan.rows == options.rows
                &&& plan.cols == options.cols
                &&& plan.pixel_width == options.cell_width
                &&& plan.pixel_height == options.cell_height
                &&& plan.environment@.len() == 2
                &&& plan.environment@[0].0@ == "TERM"@
                &&& plan.environment@[0].1@ == "xterm-truecolor"@
                &&& plan.environment@[1].0@ == "COLORTERM"@
                &&& plan.environment@[1].1@ == "truecolor"@
            },
        },
{
    if platform == Platform::Other {
        return Err(SessionError::Unsupported);
    }
    match ensure_socket_path(socket) {
        Ok(()) => {},
        Err(error) => return Err(error),
    }
    if command.is_empty() {
        return Err(SessionError::NoCommand);
    }
    let mut arguments: Vec<String> = Vec::new();
    let mut i: usize = 1;
    while i < command.len()
        invariant
            1 <= i <= command@.len(),
            arguments@.len() == i - 1,
            forall|k: int| 0 <= k < i - 1 ==> (#[trigger] arguments@[k])@ == command@[k + 1]@,
        decreases command@.len() - i,
    {
        arguments.push(command[i].clone());
        i += 1;
    }
    assert(texts(arguments@) =~= texts(command@).drop_first());
    let mut environment: Vec<(String, String)> = Vec::new();
    environment.push(("TERM".to_owned(), "xterm-truecolor".to_owned()));
    environment.push(("COLORTERM".to_owned(), "truecolor".to_owned()));
    Ok(
        ServePlan {
            program: command[0].clone(),
            arguments,
            rows: options.rows,
            cols: options.cols,
            pixel_width: options.cell_width,
            pixel_height: options.cell_height,
            environment,
        },
    )
}

/// The process group of a command, where its number is one.
pub fn process_group(pid: Option<u32>) -> (group: Option<i32>)
    ensures
        group == match pid {
            Some(pid) => if pid <= i32::MAX {
                Some(pid as i32)
            } else {
                None
            },
            None => None,
        },
{
    match pid {
        Some(pid) => if pid <= i32::MAX as u32 {
            Some(pid as i32)
        } else {
            None
        },
        None => None,
    }
}

// -------------------------------------------------------------------- laws

/// The name of the socket of a session.
pub open spec fn socket_name(name: Seq<char>) -> Seq<u8> {
    encode_utf8(name + ".sock"@)
}

/// A session name leads nowhere but into the runtime directory: the name of its
/// socket holds no slash, and the path of the socket is the directory, a
/// separating slash where one is missing, and that name.
pub proof fn law_socket_stays_in_the_runtime_dir(dir: Seq<u8>, name: Seq<char>)
    requires
        valid_name(name),
    ensures
        !socket_name(name).contains(0x2f),
        !absolute(socket_name(name)),
        socket_file(dir, name) == if dir.len() > 0 && dir.last() != 0x2f {
            dir.push(0x2f) + socket_name(name)
        } else {
            dir + socket_name(name)
        },
{
    reveal_strlit(".sock");
    let file = name + ".sock"@;
    assert forall|i: int| 0 <= i < file.len() implies file[i] as int <= 0x7f && file[i] != '/' by {
        if i < name.len() {
            assert(name_char(name[i]));
            assert(file[i] == name[i]);
        } else {
            assert(file[i] == ".sock"@[i - name.len()]);
        }
    }
    is_ascii_chars_encode_utf8(file);
    let bytes = socket_name(name);
    assert forall|i: int| 0 <= i < bytes.len() implies bytes[i] != 0x2f by {
        assert(bytes[i] == file[i] as u8);
        assert(file[i] as int <= 0x7f);
    }
}

/// Two sessions never share a socket.
pub proof fn law_names_do_not_collide(dir: Seq<u8>, a: Seq<char>, b: Seq<char>)
    requires
        valid_name(a),
        valid_name(b),
        socket_file(dir, a) == socket_file(dir, b),
    ensures
        a == b,
{
    law_socket_stays_in_the_runtime_dir(dir, a);
    law_socket_stays_in_the_runtime_dir(dir, b);
    let front = if dir.len() > 0 && dir.last() != 0x2f {
        dir.push(0x2f)
    } else {
        dir
    };
    assert(socket_name(a) =~= socket_file(dir, a).skip(front.len() as int));
    assert(socket_name(b) =~= socket_file(dir, b).skip(front.len() as int));
    encode_utf8_decode_utf8(a + ".sock"@);
    encode_utf8_decode_utf8(b + ".sock"@);
    assert(a + ".sock"@ == b + ".sock"@);
    assert(a =~= (a + ".sock"@).take((a + ".sock"@).len() - ".sock"@.len()));
    assert(b =~= (b + ".sock"@).take((b + ".sock"@).len() - ".sock"@.len()));
}

/// A runtime directory that somebody else could have put there is never used:
/// only a real directory of the user's own is, and only where nothing is there
/// is one made.
pub proof fn law_runtime_dir_is_private(path: Seq<u8>, found: FoundView, euid: u32)
    ensures
        dir_step(path, found, euid) == Ok::<DirStep, SessionFault>(DirStep::Use) <==> found == (
        FoundView::Existing { directory: true, symlink: false, owner: euid }),
        dir_step(path, found, euid) == Ok::<DirStep, SessionFault>(DirStep::Create) <==> found
            == FoundView::Missing,
{
}

/// A session is named by ASCII letters, digits, dots, hyphens and underscores,
/// one at least and nothing else; so names can be put together and taken apart.
pub proof fn law_what_names_a_session(name: Seq<char>, other: Seq<char>)
    ensures
        valid_name(name) <==> name.len() > 0 && forall|i: int|
            0 <= i < name.len() ==> {
                let c = #[trigger] name[i] as int;
                0x30 <= c <= 0x39 || 0x41 <= c <= 0x5a || 0x61 <= c <= 0x7a || c == 0x2d || c
                    == 0x2e || c == 0x5f
            },
        name.len() > 0 && other.len() > 0 ==> (valid_name(name + other) <==> valid_name(name)
            && valid_name(other)),
{
    let plain = forall|i: int|
        0 <= i < name.len() ==> {
            let c = #[trigger] name[i] as int;
            0x30 <= c <= 0x39 || 0x41 <= c <= 0x5a || 0x61 <= c <= 0x7a || c == 0x2d || c == 0x2e
                || c == 0x5f
        };
    if valid_name(name) {
        assert forall|i: int| 0 <= i < name.len() implies ({
            let c = #[trigger] name[i] as int;
            0x30 <= c <= 0x39 || 0x41 <= c <= 0x5a || 0x61 <= c <= 0x7a || c == 0x2d || c == 0x2e
                || c == 0x5f
        }) by {
            assert(name_char(name[i]));
        }
    }
    if plain {
        assert forall|i: int| 0 <= i < name.len() implies name_char(#[trigger] name[i]) by {
            let c = name[i] as int;
            assert(0x30 <= c <= 0x39 || 0x41 <= c <= 0x5a || 0x61 <= c <= 0x7a || c == 0x2d || c
                == 0x2e || c == 0x5f);
        }
    }
    let whole = name + other;
    if valid_name(whole) {
        assert forall|i: int| 0 <= i < name.len() implies name_char(#[trigger] name[i]) by {
            assert(whole[i] == name[i]);
        }
        assert forall|i: int| 0 <= i < other.len() implies name_char(#[trigger] other[i]) by {
            assert(whole[name.len() + i] == other[i]);
        }
    }
    if valid_name(name) && valid_name(other) {
        assert forall|i: int| 0 <= i < whole.len() implies name_char(#[trigger] whole[i]) by {
            if i < name.len() {
                assert(whole[i] == name[i]);
            } else {
                assert(whole[i] == other[i - name.len()]);
            }
        }
    }
}

/// A path that starts at the root stands for itself. Any other is put behind the
/// directory, both whole, with one slash between them.
pub proof fn law_paths_are_joined_by_a_slash(dir: Seq<u8>, path: Seq<u8>)
    ensures
        path.len() > 0 && path[0] == 0x2f ==> joined(dir, path) == path,
        path.len() == 0 || path[0] != 0x2f ==> {
            &&& dir.len() == 0 ==> joined(dir, path) == path
            &&& dir.len() > 0 && dir.last() == 0x2f ==> joined(dir, path) == dir + path
            &&& dir.len() > 0 && dir.last() != 0x2f ==> joined(dir, path) == dir + seq![0x2fu8]
                + path
        },
        absolute(path) <==> path.len() > 0 && path[0] == 0x2f,
{
    if dir.len() == 0 {
        assert(dir + path =~= path);
    }
    assert(dir.push(0x2f) + path =~= dir + seq![0x2fu8] + path);
}

/// The socket of a session is its name with the ending of sockets, in the
/// runtime directory.
pub proof fn law_socket_is_named_after_the_session(dir: Seq<u8>, name: Seq<char>)
    ensures
        socket_file(dir, name) == joined(dir, encode_utf8(name + ".sock"@)),
{
}

/// Every user has a runtime directory of their own, unless one was chosen, which
/// is then used as it is.
pub proof fn law_each_user_has_a_directory(dir: Seq<u8>, user: u32, other: u32)
    ensures
        socket_dir(Some(dir), user) == dir,
        socket_dir(None, user) == encode_utf8("/tmp/cellshot-"@ + decimal(user as nat)),
        socket_dir(None, user) == socket_dir(None, other) ==> user == other,
{
    let a = "/tmp/cellshot-"@ + decimal(user as nat);
    let b = "/tmp/cellshot-"@ + decimal(other as nat);
    encode_utf8_decode_utf8(a);
    encode_utf8_decode_utf8(b);
    if encode_utf8(a) == encode_utf8(b) {
        let n = "/tmp/cellshot-"@.len() as int;
        assert(decimal(user as nat) =~= a.skip(n));
        assert(decimal(other as nat) =~= b.skip(n));
        law_numbers_are_told_apart(user as nat, other as nat);
    }
}

/// Why a runtime directory is refused is told: first that it is no directory of
/// its own, then that it is somebody else's.
pub proof fn law_refused_runtime_dir_is_told(
    path: Seq<u8>,
    directory: bool,
    symlink: bool,
    owner: u32,
    euid: u32,
    cause: Seq<char>,
)
    ensures
        dir_step(path, FoundView::Unknown(cause), euid) == Err::<DirStep, SessionFault>(
            SessionFault::Uninspected(path, cause),
        ),
        !directory || symlink ==> dir_step(
            path,
            FoundView::Existing { directory, symlink, owner },
            euid,
        ) == Err::<DirStep, SessionFault>(SessionFault::NotADirectory(path)),
        directory && !symlink && owner != euid ==> dir_step(
            path,
            FoundView::Existing { directory, symlink, owner },
            euid,
        ) == Err::<DirStep, SessionFault>(SessionFault::NotOwned(path)),
{
}

/// A request reaches the session that it names, as it was made; a text that names
/// no session is refused.
pub proof fn law_request_reaches_its_session(name: Seq<char>, request: RequestView)
    ensures
        valid_name(name) ==> call_of(name, request) == Ok::<CallView, SessionFault>(
            CallView { name, request },
        ),
        !valid_name(name) ==> call_of(name, request) == Err::<CallView, SessionFault>(
            SessionFault::InvalidName,
        ),
{
}

/// A session is reached at its socket where it has a name, where there are such
/// sockets, and where the path is less than a hundred bytes long. What is missing
/// is told, the first of these first.
pub proof fn law_socket_is_found_or_told(platform: Platform, name: Seq<char>, dir: Seq<u8>)
    ensures
        ({
            let socket = socket_of(platform, name, dir);
            let path = socket_file(dir, name);
            &&& !valid_name(name) ==> socket == Err::<Seq<u8>, SessionFault>(
                SessionFault::InvalidName,
            )
            &&& valid_name(name) && platform == Platform::Other ==> socket == Err::<
                Seq<u8>,
                SessionFault,
            >(SessionFault::Unsupported)
            &&& valid_name(name) && platform == Platform::Unix && path.len() >= 100 ==> socket
                == Err::<Seq<u8>, SessionFault>(SessionFault::SocketPathTooLong(path))
            &&& valid_name(name) && platform == Platform::Unix && path.len() < 100 ==> socket
                == Ok::<Seq<u8>, SessionFault>(path)
        }),
{
}

/// A client gets the captured screen of an answer as it is; an error of the server
/// comes first, and an answer without a screen is an error too.
pub proof fn law_answer_is_passed_on(response: ResponseView)
    ensures
        response.error is Some ==> captured_of(response) == Err::<CapturedView, SessionFault>(
            SessionFault::Remote(response.error->Some_0),
        ),
        response.error is None && response.captured is Some ==> captured_of(response) == Ok::<
            CapturedView,
            SessionFault,
        >(response.captured->Some_0),
        response.error is None && response.captured is None ==> captured_of(response) == Err::<
            CapturedView,
            SessionFault,
        >(SessionFault::NoSnapshot),
{
}

/// A server starts where there are sockets, where the path of its own is less than
/// a hundred bytes long, and where there is a command. What is missing is told,
/// the first of these first.
pub proof fn law_server_starts_or_tells_why(
    platform: Platform,
    socket: Seq<u8>,
    command: Seq<Seq<char>>,
)
    ensures
        ({
            let fault = serve_fault(platform, socket, command);
            &&& platform == Platform::Other ==> fault == Some(SessionFault::Unsupported)
            &&& platform == Platform::Unix && socket.len() >= 100 ==> fault == Some(
                SessionFault::SocketPathTooLong(socket),
            )
            &&& platform == Platform::Unix && socket.len() < 100 && command.len() == 0 ==> fault
                == Some(SessionFault::NoCommand)
            &&& platform == Platform::Unix && socket.len() < 100 && command.len() > 0
                ==> fault is None
        }),
{
}

/// What a user is told holds all of what it is about, whatever that is.
pub proof fn law_messages_are_complete(path: Seq<u8>, text: Seq<char>)
    ensures
        SessionFault::SocketPathTooLong(path).told()
            == "session socket path is too long for portable Unix sockets: "@ + lossy_text(path)
            + "; set CELLSHOT_RUNTIME_DIR to a shorter directory"@,
        SessionFault::NotADirectory(path).told()
            == "session runtime path must be a real directory: "@ + lossy_text(path),
        SessionFault::NotOwned(path).told()
            == "session runtime directory is not owned by the current user: "@ + lossy_text(path),
        SessionFault::Uninspected(path, text).told() == "inspect "@ + lossy_text(path) + ": "@
            + text,
        SessionFault::AlreadyRunning(text).told() == "session "@ + debug_text(text)
            + " is already running"@,
        SessionFault::DaemonExited(text).told()
            == "session daemon exited before becoming ready: "@ + text,
        SessionFault::StartTimeout(text).told() == "timed out starting session "@ + debug_text(
            text,
        ),
        SessionFault::EndedBefore(text).told()
            == "session ended before visible terminal included "@ + debug_text(text),
        SessionFault::WaitTimeout(text).told() == "timed out waiting for visible terminal text "@
            + debug_text(text),
        SessionFault::InvalidRequest(text).told() == "invalid session request: "@ + text,
        SessionFault::UnreadRequest(text).told() == "failed to read session request: "@ + text,
        SessionFault::Remote(text).told() == text,
        SessionFault::Outside(text).told() == text,
{
}

/// The values of requests and answers hold everything that those do.
pub proof fn law_message_values_are_complete(request: Request, response: Response)
    ensures
        request matches Request::Wait { text, timeout_ms } ==> request@ == (RequestView::Wait {
            text: text@,
            timeout_ms,
        }),
        request matches Request::Send { input, pace_ms } ==> request@ is Send
            && request@->Send_pace_ms == pace_ms && request@->Send_input.len() == input@.len()
            && forall|i: int|
            0 <= i < input@.len() ==> #[trigger] request@->Send_input[i] == input@[i]@,
        request matches Request::Snapshot { settle_ms, deadline_ms } ==> request@ == (
        RequestView::Snapshot { settle_ms, deadline_ms }),
        request is Ping <==> request@ is Ping,
        request is Close <==> request@ is Close,
        response@.error is Some <==> response.error is Some,
        response.error matches Some(error) ==> response@.error == Some(error@),
        response@.captured is Some <==> response.captured is Some,
        response.captured matches Some(captured) ==> response@.captured == Some(captured@)
            && captured@.frame == captured.frame@ && captured@.ansi == captured.ansi@,
{
}

/// The values of errors keep what they are about, and tell all errors apart.
pub proof fn law_error_values_are_complete(path: Vec<u8>, text: String)
    ensures
        SessionError::SocketPathTooLong(path)@ == SessionFault::SocketPathTooLong(path@),
        SessionError::NotADirectory(path)@ == SessionFault::NotADirectory(path@),
        SessionError::NotOwned(path)@ == SessionFault::NotOwned(path@),
        SessionError::Uninspected(path, text)@ == SessionFault::Uninspected(path@, text@),
        SessionError::AlreadyRunning(text)@ == SessionFault::AlreadyRunning(text@),
        SessionError::DaemonExited(text)@ == SessionFault::DaemonExited(text@),
        SessionError::StartTimeout(text)@ == SessionFault::StartTimeout(text@),
        SessionError::EndedBefore(text)@ == SessionFault::EndedBefore(text@),
        SessionError::WaitTimeout(text)@ == SessionFault::WaitTimeout(text@),
        SessionError::InvalidRequest(text)@ == SessionFault::InvalidRequest(text@),
        SessionError::UnreadRequest(text)@ == SessionFault::UnreadRequest(text@),
        SessionError::Remote(text)@ == SessionFault::Remote(text@),
        SessionError::Outside(text)@ == SessionFault::Outside(text@),
        SessionError::Unsupported@ == SessionFault::Unsupported,
        SessionError::InvalidName@ == SessionFault::InvalidName,
        SessionError::NoCommand@ == SessionFault::NoCommand,
        SessionError::CommandExited@ == SessionFault::CommandExited,
        SessionError::NoSnapshot@ == SessionFault::NoSnapshot,
        SessionError::RequestTooLong@ == SessionFault::RequestTooLong,
{
}

/// The value of an addressed request, and of what was found at a path, hold
/// everything that those do.
pub proof fn law_call_values_are_complete(call: Call, error: SessionError, found: Found)
    ensures
        call_view(Ok(call)) == Ok::<CallView, SessionFault>(
            CallView { name: call.name@, request: call.request@ },
        ),
        call_view(Err(error)) == Err::<CallView, SessionFault>(error@),
        match found {
            Found::Missing => found@ is Missing,
            Found::Existing { directory, symlink, owner } => found@ == (FoundView::Existing {
                directory,
                symlink,
                owner,
            }),
            Found::Unknown(cause) => found@ == FoundView::Unknown(cause@),
        },
{
}

/// The directory and the socket of a session are their owner's alone: nobody else
/// may read, write or enter them.
pub proof fn law_sessions_are_private()
    ensures
        RUNTIME_DIR_MODE == 7 * 64,
        SOCKET_MODE == 6 * 64,
{
}

} // verus!
