//! Captures of a single screen: what may be asked for, the screen behind a
//! stream of terminal output, and the files that a capture leaves.

use vstd::prelude::*;
use vstd::string::*;
use vstd::utf8::*;
use crate::frame::{Frame, FrameView};
use crate::input::{burst, capture_input, event_bytes, first_untypeable, typeable, InputError};
use crate::session::{Captured, CapturedView, Request, RequestView};
use crate::terminal::{from_screen, takes, terminal, Terminal, TerminalView};
use crate::text::{bytes_of, copy_bytes, debug_text, decimal, number, texts};

verus! {

/// How a command is run.
#[derive(Clone, Copy, Debug, PartialEq, Eq, Structural)]
pub enum CaptureMode {
    /// Inside a pseudo-terminal.
    Pty,
    /// With pipes, its output rendered as terminal text.
    Pipe,
}

/// Why a screen cannot be captured.
#[derive(Debug, PartialEq, Eq)]
pub enum CaptureError {
    ZeroSize,
    SendNeedsPty,
    HostNeedsPty,
    Input(InputError),
    InputTooLong(usize),
    OutputTooLong(usize),
}

/// Why a screen cannot be captured, as a mathematical value.
pub enum CaptureFault {
    ZeroSize,
    SendNeedsPty,
    HostNeedsPty,
    Untypeable(Seq<char>),
    InputTooLong(usize),
    OutputTooLong(usize),
}

impl View for CaptureError {
    type V = CaptureFault;

    open spec fn view(&self) -> CaptureFault {
        match *self {
            CaptureError::ZeroSize => CaptureFault::ZeroSize,
            CaptureError::SendNeedsPty => CaptureFault::SendNeedsPty,
            CaptureError::HostNeedsPty => CaptureFault::HostNeedsPty,
            CaptureError::Input(error) => CaptureFault::Untypeable(error.event@),
            CaptureError::InputTooLong(max_bytes) => CaptureFault::InputTooLong(max_bytes),
            CaptureError::OutputTooLong(max_bytes) => CaptureFault::OutputTooLong(max_bytes),
        }
    }
}

impl CaptureError {
    /// What a user is told.
    pub open spec fn told(self) -> Seq<char> {
        match self {
            CaptureError::ZeroSize => "terminal dimensions must be greater than zero"@,
            CaptureError::SendNeedsPty => "--send is only supported with --mode pty"@,
            CaptureError::HostNeedsPty => "--host is only supported with --mode pty"@,
            CaptureError::Input(error) => error.told(),
            CaptureError::InputTooLong(max_bytes) => "terminal input exceeds --max-bytes ("@
                + decimal(max_bytes as nat) + ")"@,
            CaptureError::OutputTooLong(max_bytes) => "terminal output exceeds --max-bytes ("@
                + decimal(max_bytes as nat) + ")"@,
        }
    }

    /// What a user is told.
    pub fn message(&self) -> (message: String)
        ensures
            message@ == self.told(),
    {
        match self {
            CaptureError::ZeroSize => "terminal dimensions must be greater than zero".to_owned(),
            CaptureError::SendNeedsPty => "--send is only supported with --mode pty".to_owned(),
            CaptureError::HostNeedsPty => "--host is only supported with --mode pty".to_owned(),
            CaptureError::Input(error) => error.message(),
            CaptureError::InputTooLong(max_bytes) =>
                "terminal input exceeds --max-bytes (".to_owned().concat(
                number(*max_bytes as u64).as_str(),
            ).concat(")"),
            CaptureError::OutputTooLong(max_bytes) =>
                "terminal output exceeds --max-bytes (".to_owned().concat(
                number(*max_bytes as u64).as_str(),
            ).concat(")"),
        }
    }
}

/// Refuses a terminal without columns or rows.
pub fn validate_terminal_size(cols: u16, rows: u16) -> (valid: Result<(), CaptureError>)
    ensures
        valid is Ok == (cols > 0 && rows > 0),
        valid matches Err(error) ==> error@ == CaptureFault::ZeroSize,
{
    if cols == 0 || rows == 0 {
        return Err(CaptureError::ZeroSize);
    }
    Ok(())
}

/// What is wrong with a capture, if anything: the size comes first, then what
/// pipes cannot do, then the first event that cannot be typed.
pub open spec fn capture_fault(
    cols: u16,
    rows: u16,
    mode: CaptureMode,
    send: Seq<Seq<char>>,
    host: bool,
) -> Option<CaptureFault> {
    if cols == 0 || rows == 0 {
        Some(CaptureFault::ZeroSize)
    } else if mode is Pipe && send.len() > 0 {
        Some(CaptureFault::SendNeedsPty)
    } else if mode is Pipe && host {
        Some(CaptureFault::HostNeedsPty)
    } else if !typeable(send) {
        Some(
            CaptureFault::Untypeable(
                send[choose|i: int| 0 <= i < send.len() && first_untypeable(send, i)],
            ),
        )
    } else {
        None
    }
}

/// Checks what a capture is asked to do, and gives the input that it types.
pub fn plan_capture(
    cols: u16,
    rows: u16,
    mode: CaptureMode,
    send: &[String],
    host: bool,
) -> (input: Result<Vec<u8>, CaptureError>)
    ensures
        match capture_fault(cols, rows, mode, texts(send@), host) {
            Some(fault) => input matches Err(error) && error@ == fault,
            None => input matches Ok(input) && input@ == burst(texts(send@)),
        },
{
    match validate_terminal_size(cols, rows) {
        Ok(()) => {},
        Err(error) => return Err(error),
    }
    assert(texts(send@).len() == send@.len());
    if mode == CaptureMode::Pipe && send.len() > 0 {
        return Err(CaptureError::SendNeedsPty);
    }
    if mode == CaptureMode::Pipe && host {
        return Err(CaptureError::HostNeedsPty);
    }
    match capture_input(send) {
        Ok(input) => Ok(input),
        Err(error) => Err(CaptureError::Input(error)),
    }
}

// ------------------------------------------------------------------- script

/// What a capture asks of the command that it runs, one thing after the other:
/// to show a text, to take some input, and to show its settled screen.
#[derive(Debug, PartialEq, Eq)]
pub struct CaptureScript {
    /// The text that shows before anything else is done.
    pub wait_for: Option<String>,
    /// The input that is typed then, in one burst.
    pub input: Vec<u8>,
    /// How long the output is quiet before the screen is taken.
    pub settle_ms: u64,
    /// When the capture ends at the latest, from its start.
    pub deadline_ms: u64,
}

/// The requests of a capture, each made when so much time is left.
pub open spec fn capture_requests(script: CaptureScript, left_ms: u64) -> Seq<RequestView> {
    let waits = match script.wait_for {
        Some(text) => seq![RequestView::Wait { text: text@, timeout_ms: left_ms }],
        None => Seq::empty(),
    };
    let sends = if script.input@.len() > 0 {
        seq![RequestView::Send { input: seq![script.input@], pace_ms: 0 }]
    } else {
        Seq::empty()
    };
    waits + sends + seq![
        RequestView::Snapshot { settle_ms: script.settle_ms, deadline_ms: left_ms },
    ]
}

/// How much of some time is left.
pub open spec fn time_left(time_ms: u64, elapsed_ms: u64) -> u64 {
    if elapsed_ms <= time_ms {
        (time_ms - elapsed_ms) as u64
    } else {
        0
    }
}

impl CaptureScript {
    /// The next request of a capture, after so many and so much time.
    pub fn next_request(&self, asked: usize, elapsed_ms: u64) -> (request: Option<Request>)
        ensures
            ({
                let requests = capture_requests(*self, time_left(self.deadline_ms, elapsed_ms));
                &&& request is Some == (asked < requests.len())
                &&& request matches Some(request) ==> request@ == requests[asked as int]
            }),
    {
        let left_ms: u64 = self.deadline_ms.saturating_sub(elapsed_ms);
        let mut at: usize = asked;
        if let Some(text) = &self.wait_for {
            if at == 0 {
                return Some(Request::Wait { text: text.clone(), timeout_ms: left_ms });
            }
            at -= 1;
        }
        if self.input.len() > 0 {
            if at == 0 {
                let mut input: Vec<Vec<u8>> = Vec::new();
                input.push(copy_bytes(self.input.as_slice()));
                let request = Request::Send { input, pace_ms: 0 };
                assert(request@->Send_input =~= seq![self.input@]);
                return Some(request);
            }
            at -= 1;
        }
        if at == 0 {
            Some(Request::Snapshot { settle_ms: self.settle_ms, deadline_ms: left_ms })
        } else {
            None
        }
    }
}

// ------------------------------------------------------------------ streams

/// How many bytes of a stream are read: one more than are accepted, so that a
/// stream that is too long can be told.
pub fn read_limit(max_bytes: usize) -> (limit: u64)
    ensures
        limit == if max_bytes < usize::MAX {
            max_bytes + 1
        } else {
            max_bytes as int
        },
{
    max_bytes.saturating_add(1) as u64
}

/// Counts some more output of a command, and refuses it where a capture has then
/// received more than it may.
pub fn count_output(received: usize, more: usize, max_bytes: usize) -> (total: Result<
    usize,
    CaptureError,
>)
    requires
        received <= max_bytes,
    ensures
        total is Ok == (received + more <= max_bytes),
        total matches Ok(total) ==> total == received + more,
        total matches Err(error) ==> error@ == CaptureFault::OutputTooLong(max_bytes),
{
    if more > max_bytes - received {
        Err(CaptureError::OutputTooLong(max_bytes))
    } else {
        Ok(received + more)
    }
}

/// The screen after a stream of terminal output, and the stream itself.
pub open spec fn screen_of(input: Seq<u8>, rows: u16, cols: u16) -> CapturedView {
    CapturedView {
        frame: (TerminalView { rows, cols, fed: seq![input] }).frame(),
        ansi: input,
    }
}

/// Shows a stream of terminal output that is not too long.
pub fn ansi(input: Vec<u8>, rows: u16, cols: u16, max_bytes: usize) -> (captured: Result<
    Captured,
    CaptureError,
>)
    requires
        rows > 0,
        cols > 0,
        input@.len() <= max_bytes ==> takes(rows, cols, seq![input@]),
    ensures
        captured is Ok == (input@.len() <= max_bytes),
        captured matches Ok(screen) ==> screen@ == screen_of(input@, rows, cols),
        captured matches Err(error) ==> error@ == CaptureFault::InputTooLong(max_bytes),
{
    if input.len() > max_bytes {
        return Err(CaptureError::InputTooLong(max_bytes));
    }
    let mut parser: Terminal = terminal(rows, cols);
    assert(parser@.fed.push(input@) =~= seq![input@]);
    parser.process(input.as_slice());
    let frame = from_screen(&parser);
    Ok(Captured { frame, ansi: input })
}

/// Some output with every plain line feed as a terminal line ending: a carriage
/// return goes before each line feed that has none.
pub open spec fn terminal_lines(bytes: Seq<u8>) -> Seq<u8>
    decreases bytes.len(),
{
    if bytes.len() == 0 {
        bytes
    } else {
        let before = bytes.drop_last();
        let plain = bytes.last() == 0x0a && (before.len() == 0 || before.last() != 0x0d);
        if plain {
            terminal_lines(before).push(0x0d).push(0x0a)
        } else {
            terminal_lines(before).push(bytes.last())
        }
    }
}

/// The output of a pipe as a terminal shows it.
pub fn normalize_lines(bytes: &[u8]) -> (lines: Vec<u8>)
    ensures
        lines@ == terminal_lines(bytes@),
{
    let mut lines: Vec<u8> = Vec::new();
    let mut i: usize = 0;
    assert(bytes@.take(0) =~= Seq::<u8>::empty());
    while i < bytes.len()
        invariant
            i <= bytes@.len(),
            lines@ == terminal_lines(bytes@.take(i as int)),
        decreases bytes@.len() - i,
    {
        let byte: u8 = bytes[i];
        assert(bytes@.take(i + 1).drop_last() =~= bytes@.take(i as int));
        if byte == 0x0a && (i == 0 || bytes[i - 1] != 0x0d) {
            lines.push(0x0d);
        }
        lines.push(byte);
        i += 1;
    }
    assert(bytes@.take(i as int) =~= bytes@);
    lines
}

// -------------------------------------------------------------------- files

/// A file that a capture can leave.
#[derive(Clone, Copy, Debug, PartialEq, Eq, Structural)]
pub enum Artifact {
    /// The frame as structured data.
    Json,
    /// The visible text.
    Text,
    /// The output that led to the screen.
    Ansi,
    /// A drawing of the frame.
    Svg,
    /// A picture of the frame.
    Png,
}

impl Artifact {
    /// The extension of the file.
    pub open spec fn suffix(self) -> Seq<char> {
        match self {
            Artifact::Json => "json"@,
            Artifact::Text => "txt"@,
            Artifact::Ansi => "ansi"@,
            Artifact::Svg => "svg"@,
            Artifact::Png => "png"@,
        }
    }

    /// The extension of the file.
    pub fn extension(self) -> (extension: &'static str)
        ensures
            extension@ == self.suffix(),
    {
        match self {
            Artifact::Json => "json",
            Artifact::Text => "txt",
            Artifact::Ansi => "ansi",
            Artifact::Svg => "svg",
            Artifact::Png => "png",
        }
    }
}

/// The path of a file: its extension is added to the stem.
pub open spec fn artifact_path(stem: Seq<u8>, artifact: Artifact) -> Seq<u8> {
    stem + encode_utf8("."@ + artifact.suffix())
}

/// The path of a file: its extension is added to the stem.
pub fn output_path(stem: &[u8], artifact: Artifact) -> (path: Vec<u8>)
    ensures
        path@ == artifact_path(stem@, artifact),
{
    let mut path = copy_bytes(stem);
    let ending = ".".to_owned().concat(artifact.extension());
    path.extend_from_slice(bytes_of(ending.as_str()).as_slice());
    assert(path@ =~= artifact_path(stem@, artifact));
    path
}

/// What a file holds.
#[derive(Debug, PartialEq, Eq)]
pub enum Contents<'a> {
    /// A frame as structured data.
    Data(&'a Frame),
    /// Some bytes as they are.
    Bytes(Vec<u8>),
    /// A drawing of a frame.
    Drawing(&'a Frame),
    /// A picture of a frame.
    Picture(&'a Frame),
}

/// What a file holds, as a mathematical value.
pub enum ContentsView {
    Data(FrameView),
    Bytes(Seq<u8>),
    Drawing(FrameView),
    Picture(FrameView),
}

impl<'a> View for Contents<'a> {
    type V = ContentsView;

    open spec fn view(&self) -> ContentsView {
        match *self {
            Contents::Data(frame) => ContentsView::Data(frame@),
            Contents::Bytes(bytes) => ContentsView::Bytes(bytes@),
            Contents::Drawing(frame) => ContentsView::Drawing(frame@),
            Contents::Picture(frame) => ContentsView::Picture(frame@),
        }
    }
}

/// What a file of a capture holds: the frame, its text, or the output that led to
/// it.
pub open spec fn artifact_contents(captured: CapturedView, artifact: Artifact) -> ContentsView {
    match artifact {
        Artifact::Json => ContentsView::Data(captured.frame),
        Artifact::Text => ContentsView::Bytes(encode_utf8(captured.frame.text())),
        Artifact::Ansi => ContentsView::Bytes(captured.ansi),
        Artifact::Svg => ContentsView::Drawing(captured.frame),
        Artifact::Png => ContentsView::Picture(captured.frame),
    }
}

/// What a file of a capture holds.
pub fn contents(captured: &Captured, artifact: Artifact) -> (contents: Contents<'_>)
    ensures
        contents@ == artifact_contents(captured@, artifact),
{
    match artifact {
        Artifact::Json => Contents::Data(&captured.frame),
        Artifact::Text => Contents::Bytes(bytes_of(captured.frame.text().as_str())),
        Artifact::Ansi => Contents::Bytes(copy_bytes(captured.ansi.as_slice())),
        Artifact::Svg => Contents::Drawing(&captured.frame),
        Artifact::Png => Contents::Picture(&captured.frame),
    }
}

/// One step on the way to the files of a capture.
#[derive(Debug, PartialEq, Eq)]
pub enum OutputStep<'a> {
    /// Write a file.
    Write { path: Vec<u8>, contents: Contents<'a> },
    /// Tell the user where a file is.
    Print { path: Vec<u8> },
}

/// One step as a mathematical value.
pub enum OutputStepView {
    Write { path: Seq<u8>, contents: ContentsView },
    Print { path: Seq<u8> },
}

impl<'a> View for OutputStep<'a> {
    type V = OutputStepView;

    open spec fn view(&self) -> OutputStepView {
        match *self {
            OutputStep::Write { path, contents } => OutputStepView::Write {
                path: path@,
                contents: contents@,
            },
            OutputStep::Print { path } => OutputStepView::Print { path: path@ },
        }
    }
}

/// The step that writes a file of a capture.
pub open spec fn write_step(captured: CapturedView, stem: Seq<u8>, artifact: Artifact) -> OutputStepView {
    OutputStepView::Write {
        path: artifact_path(stem, artifact),
        contents: artifact_contents(captured, artifact),
    }
}

/// The step that tells where a file is.
pub open spec fn print_step(stem: Seq<u8>, artifact: Artifact) -> OutputStepView {
    OutputStepView::Print { path: artifact_path(stem, artifact) }
}

/// The steps of a picture: it is written and told, or neither.
pub open spec fn picture_steps(
    captured: CapturedView,
    stem: Seq<u8>,
    artifact: Artifact,
    left_out: bool,
) -> Seq<OutputStepView> {
    if left_out {
        Seq::empty()
    } else {
        seq![write_step(captured, stem, artifact), print_step(stem, artifact)]
    }
}

/// The steps on the way to the files of a capture: the data is written first
/// and told last.
pub open spec fn output_steps(
    captured: CapturedView,
    stem: Seq<u8>,
    no_svg: bool,
    no_png: bool,
) -> Seq<OutputStepView> {
    seq![
        write_step(captured, stem, Artifact::Json),
        write_step(captured, stem, Artifact::Text),
        write_step(captured, stem, Artifact::Ansi),
    ] + picture_steps(captured, stem, Artifact::Svg, no_svg) + picture_steps(
        captured,
        stem,
        Artifact::Png,
        no_png,
    ) + seq![
        print_step(stem, Artifact::Json),
        print_step(stem, Artifact::Text),
        print_step(stem, Artifact::Ansi),
    ]
}

/// The values behind some steps.
pub open spec fn step_views(steps: Seq<OutputStep<'_>>) -> Seq<OutputStepView> {
    steps.map_values(|step: OutputStep<'_>| step@)
}

fn push_write<'a>(
    steps: &mut Vec<OutputStep<'a>>,
    captured: &'a Captured,
    stem: &[u8],
    artifact: Artifact,
)
    ensures
        step_views(final(steps)@) == step_views(old(steps)@).push(
            write_step(captured@, stem@, artifact),
        ),
{
    steps.push(
        OutputStep::Write {
            path: output_path(stem, artifact),
            contents: contents(captured, artifact),
        },
    );
    assert(step_views(steps@) =~= step_views(old(steps)@).push(
        write_step(captured@, stem@, artifact),
    ));
}

fn push_print(steps: &mut Vec<OutputStep<'_>>, stem: &[u8], artifact: Artifact)
    ensures
        step_views(final(steps)@) == step_views(old(steps)@).push(print_step(stem@, artifact)),
{
    steps.push(OutputStep::Print { path: output_path(stem, artifact) });
    assert(step_views(steps@) =~= step_views(old(steps)@).push(print_step(stem@, artifact)));
}

/// The steps on the way to the files of a capture.
pub fn write_outputs<'a>(
    captured: &'a Captured,
    stem: &[u8],
    no_svg: bool,
    no_png: bool,
) -> (steps: Vec<OutputStep<'a>>)
    ensures
        step_views(steps@) == output_steps(captured@, stem@, no_svg, no_png),
{
    let mut steps: Vec<OutputStep<'a>> = Vec::new();
    assert(step_views(steps@) =~= Seq::<OutputStepView>::empty());
    push_write(&mut steps, captured, stem, Artifact::Json);
    push_write(&mut steps, captured, stem, Artifact::Text);
    push_write(&mut steps, captured, stem, Artifact::Ansi);
    if !no_svg {
        push_write(&mut steps, captured, stem, Artifact::Svg);
        push_print(&mut steps, stem, Artifact::Svg);
    }
    if !no_png {
        push_write(&mut steps, captured, stem, Artifact::Png);
        push_print(&mut steps, stem, Artifact::Png);
    }
    push_print(&mut steps, stem, Artifact::Json);
    push_print(&mut steps, stem, Artifact::Text);
    push_print(&mut steps, stem, Artifact::Ansi);
    assert(step_views(steps@) =~= output_steps(captured@, stem@, no_svg, no_png));
    steps
}

// ------------------------------------------------------------------- colour

/// How a command is told whether to use colour.
#[derive(Clone, Copy, Debug, PartialEq, Eq, Structural)]
pub enum ColorMode {
    /// Not at all.
    Auto,
    /// To use it.
    Always,
    /// Not to use it.
    Never,
}

/// A change of the environment of a command: a variable with its new value, or
/// one that is removed.
#[derive(Debug, PartialEq, Eq)]
pub struct Change {
    pub name: &'static str,
    pub value: Option<&'static str>,
}

/// A change as a mathematical value.
pub struct ChangeView {
    pub name: Seq<char>,
    pub value: Option<Seq<char>>,
}

impl View for Change {
    type V = ChangeView;

    open spec fn view(&self) -> ChangeView {
        ChangeView {
            name: self.name@,
            value: match self.value {
                Some(value) => Some(value@),
                None => None,
            },
        }
    }
}

/// What changes in the environment of a command: to have colour, `NO_COLOR` goes
/// and what forces colour is set; to have none, the other way round.
pub open spec fn color_changes(mode: ColorMode) -> Seq<ChangeView> {
    match mode {
        ColorMode::Auto => Seq::empty(),
        ColorMode::Always => seq![
            ChangeView { name: "NO_COLOR"@, value: None },
            ChangeView { name: "FORCE_COLOR"@, value: Some("1"@) },
            ChangeView { name: "CLICOLOR_FORCE"@, value: Some("1"@) },
        ],
        ColorMode::Never => seq![
            ChangeView { name: "FORCE_COLOR"@, value: None },
            ChangeView { name: "CLICOLOR_FORCE"@, value: None },
            ChangeView { name: "NO_COLOR"@, value: Some("1"@) },
            ChangeView { name: "CLICOLOR"@, value: Some("0"@) },
        ],
    }
}

/// What changes in the environment of a command.
pub fn color_environment(mode: ColorMode) -> (changes: Vec<Change>)
    ensures
        changes@.map_values(|change: Change| change@) == color_changes(mode),
{
    let mut changes: Vec<Change> = Vec::new();
    match mode {
        ColorMode::Auto => {},
        ColorMode::Always => {
            changes.push(Change { name: "NO_COLOR", value: None });
            changes.push(Change { name: "FORCE_COLOR", value: Some("1") });
            changes.push(Change { name: "CLICOLOR_FORCE", value: Some("1") });
        },
        ColorMode::Never => {
            changes.push(Change { name: "FORCE_COLOR", value: None });
            changes.push(Change { name: "CLICOLOR_FORCE", value: None });
            changes.push(Change { name: "NO_COLOR", value: Some("1") });
            changes.push(Change { name: "CLICOLOR", value: Some("0") });
        },
    }
    assert(changes@.map_values(|change: Change| change@) =~= color_changes(mode));
    changes
}

// --------------------------------------------------------------------- laws

/// Whether a capture leaves a file.
pub open spec fn leaves(artifact: Artifact, no_svg: bool, no_png: bool) -> bool {
    match artifact {
        Artifact::Svg => !no_svg,
        Artifact::Png => !no_png,
        _ => true,
    }
}

/// A file is told exactly where the capture leaves it, and only once it is
/// written.
pub proof fn law_files_are_told_once_written(
    captured: CapturedView,
    stem: Seq<u8>,
    no_svg: bool,
    no_png: bool,
    artifact: Artifact,
)
    ensures
        ({
            let steps = output_steps(captured, stem, no_svg, no_png);
            let write = write_step(captured, stem, artifact);
            let print = print_step(stem, artifact);
            &&& steps.contains(write) == leaves(artifact, no_svg, no_png)
            &&& steps.contains(print) == leaves(artifact, no_svg, no_png)
            &&& forall|i: int, k: int|
                0 <= i < steps.len() && 0 <= k < steps.len() && #[trigger] steps[i] == write
                    && #[trigger] steps[k] == print ==> i < k
        }),
{
    let steps = output_steps(captured, stem, no_svg, no_png);
    assert forall|a: Artifact, b: Artifact| #[trigger] artifact_path(stem, a) == #[trigger]
        artifact_path(stem, b) implies a == b by {
        law_files_do_not_collide(stem, stem, a, b);
    }
    assert(steps[0] == write_step(captured, stem, Artifact::Json));
    assert(steps[1] == write_step(captured, stem, Artifact::Text));
    assert(steps[2] == write_step(captured, stem, Artifact::Ansi));
    assert(steps[steps.len() - 3] == print_step(stem, Artifact::Json));
    assert(steps[steps.len() - 2] == print_step(stem, Artifact::Text));
    assert(steps[steps.len() - 1] == print_step(stem, Artifact::Ansi));
    if !no_svg {
        assert(steps[3] == write_step(captured, stem, Artifact::Svg));
        assert(steps[4] == print_step(stem, Artifact::Svg));
    }
    if !no_png {
        assert(steps[steps.len() - 5] == write_step(captured, stem, Artifact::Png));
        assert(steps[steps.len() - 4] == print_step(stem, Artifact::Png));
    }
}

/// The bytes of an extension with its dot.
proof fn lemma_endings()
    ensures
        encode_utf8("."@ + "json"@) == seq![0x2eu8, 0x6au8, 0x73u8, 0x6fu8, 0x6eu8],
        encode_utf8("."@ + "txt"@) == seq![0x2eu8, 0x74u8, 0x78u8, 0x74u8],
        encode_utf8("."@ + "ansi"@) == seq![0x2eu8, 0x61u8, 0x6eu8, 0x73u8, 0x69u8],
        encode_utf8("."@ + "svg"@) == seq![0x2eu8, 0x73u8, 0x76u8, 0x67u8],
        encode_utf8("."@ + "png"@) == seq![0x2eu8, 0x70u8, 0x6eu8, 0x67u8],
{
    reveal_strlit(".");
    reveal_strlit("json");
    reveal_strlit("txt");
    reveal_strlit("ansi");
    reveal_strlit("svg");
    reveal_strlit("png");
    assert("."@ + "json"@ =~= seq!['.', 'j', 's', 'o', 'n']);
    assert("."@ + "txt"@ =~= seq!['.', 't', 'x', 't']);
    assert("."@ + "ansi"@ =~= seq!['.', 'a', 'n', 's', 'i']);
    assert("."@ + "svg"@ =~= seq!['.', 's', 'v', 'g']);
    assert("."@ + "png"@ =~= seq!['.', 'p', 'n', 'g']);
    is_ascii_chars_encode_utf8("."@ + "json"@);
    is_ascii_chars_encode_utf8("."@ + "txt"@);
    is_ascii_chars_encode_utf8("."@ + "ansi"@);
    is_ascii_chars_encode_utf8("."@ + "svg"@);
    is_ascii_chars_encode_utf8("."@ + "png"@);
    assert(encode_utf8("."@ + "json"@) =~= seq![0x2eu8, 0x6au8, 0x73u8, 0x6fu8, 0x6eu8]);
    assert(encode_utf8("."@ + "txt"@) =~= seq![0x2eu8, 0x74u8, 0x78u8, 0x74u8]);
    assert(encode_utf8("."@ + "ansi"@) =~= seq![0x2eu8, 0x61u8, 0x6eu8, 0x73u8, 0x69u8]);
    assert(encode_utf8("."@ + "svg"@) =~= seq![0x2eu8, 0x73u8, 0x76u8, 0x67u8]);
    assert(encode_utf8("."@ + "png"@) =~= seq![0x2eu8, 0x70u8, 0x6eu8, 0x67u8]);
}

/// Files of different stems, or of different kinds, never have the same path:
/// two captures overwrite each other only where their stems are the same.
pub proof fn law_files_do_not_collide(
    stem: Seq<u8>,
    other: Seq<u8>,
    artifact: Artifact,
    another: Artifact,
)
    requires
        artifact_path(stem, artifact) == artifact_path(other, another),
    ensures
        stem == other,
        artifact == another,
{
    lemma_endings();
    let path = artifact_path(stem, artifact);
    let same = artifact_path(other, another);
    let n = path.len();
    let ending = encode_utf8("."@ + artifact.suffix());
    let last = encode_utf8("."@ + another.suffix());
    assert(path[n - 1] == ending.last() && path[n - 2] == ending[ending.len() - 2]);
    assert(same[n - 1] == last.last() && same[n - 2] == last[last.len() - 2]);
    assert(artifact == another);
    assert(stem =~= path.take(stem.len() as int));
    assert(other =~= same.take(other.len() as int));
}

/// To show the kept stream of a capture again gives the same capture.
pub proof fn law_kept_stream_shows_the_same_screen(input: Seq<u8>, rows: u16, cols: u16)
    ensures
        screen_of(screen_of(input, rows, cols).ansi, rows, cols) == screen_of(input, rows, cols),
{
}

/// Output that has terminal line endings keeps them as they are.
pub proof fn law_line_endings_are_kept(bytes: Seq<u8>)
    ensures
        terminal_lines(terminal_lines(bytes)) == terminal_lines(bytes),
        bytes.len() > 0 ==> terminal_lines(bytes).len() > 0 && terminal_lines(bytes).last()
            == bytes.last(),
    decreases bytes.len(),
{
    if bytes.len() > 0 {
        let before = bytes.drop_last();
        law_line_endings_are_kept(before);
        let shorter = terminal_lines(before);
        assert(shorter.push(bytes.last()).drop_last() =~= shorter);
        assert(shorter.push(0x0d).drop_last() =~= shorter);
        assert(terminal_lines(shorter.push(0x0d)) == shorter.push(0x0d));
        assert(shorter.push(0x0d).push(0x0a).drop_last() =~= shorter.push(0x0d));
        assert(terminal_lines(shorter.push(0x0d).push(0x0a)) == shorter.push(0x0d).push(0x0a));
    }
}

/// A capture takes the screen last, types only after the text that it waits for
/// has shown, and asks for nothing that was not asked of it.
pub proof fn law_screen_is_taken_last(script: CaptureScript, left_ms: u64)
    ensures
        ({
            let requests = capture_requests(script, left_ms);
            &&& 1 <= requests.len() <= 3
            &&& requests.last() is Snapshot
            &&& forall|i: int| 0 <= i < requests.len() - 1 ==> !(#[trigger] requests[i] is Snapshot)
            &&& script.wait_for is Some <==> requests[0] is Wait
            &&& forall|i: int| 0 < i < requests.len() ==> !(#[trigger] requests[i] is Wait)
            &&& script.input@.len() > 0 <==> requests.len() > 1 && requests[requests.len() - 2]
                is Send
            &&& forall|i: int|
                0 <= i < requests.len() && #[trigger] requests[i] is Send ==> i
                    == requests.len() - 2
        }),
{
}

/// What is left of some bytes without the carriage returns among them.
pub open spec fn without_returns(bytes: Seq<u8>) -> Seq<u8>
    decreases bytes.len(),
{
    if bytes.len() == 0 {
        bytes
    } else if bytes.last() == 0x0d {
        without_returns(bytes.drop_last())
    } else {
        without_returns(bytes.drop_last()).push(bytes.last())
    }
}

/// Whether some places lead through a sequence in its order.
pub open spec fn ascending(places: Seq<int>, end: int) -> bool {
    &&& forall|i: int| 0 <= i < places.len() ==> 0 <= #[trigger] places[i] < end
    &&& forall|i: int, k: int|
        0 <= i < k < places.len() ==> #[trigger] places[i] < #[trigger] places[k]
}

/// Line endings are all that changes: without carriage returns the output of a
/// pipe stays what it was, every byte of it is still there in its order, and every
/// line feed has a carriage return before it. Nothing is added but a carriage
/// return for each line feed that had none.
pub proof fn law_only_line_endings_change(bytes: Seq<u8>)
    ensures
        without_returns(terminal_lines(bytes)) == without_returns(bytes),
        exists|places: Seq<int>| #[trigger]
            ascending(places, terminal_lines(bytes).len() as int) && places.len() == bytes.len()
                && forall|i: int|
                0 <= i < bytes.len() ==> terminal_lines(bytes)[#[trigger] places[i]] == bytes[i],
        forall|i: int|
            0 <= i < terminal_lines(bytes).len() && #[trigger] terminal_lines(bytes)[i] == 0x0a
                ==> i > 0 && terminal_lines(bytes)[i - 1] == 0x0d,
        (forall|i: int|
            0 <= i < bytes.len() && #[trigger] bytes[i] == 0x0a ==> i > 0 && bytes[i - 1] == 0x0d)
            ==> terminal_lines(bytes) == bytes,
        bytes.len() <= terminal_lines(bytes).len() <= 2 * bytes.len(),
    decreases bytes.len(),
{
    if bytes.len() == 0 {
        let places = Seq::<int>::empty();
        assert(ascending(places, 0));
        assert(terminal_lines(bytes) =~= bytes);
    } else {
        let before = bytes.drop_last();
        let last = bytes.last();
        let shorter = terminal_lines(before);
        let whole = terminal_lines(bytes);
        law_only_line_endings_change(before);
        law_line_endings_are_kept(before);
        let plain = last == 0x0a && (before.len() == 0 || before.last() != 0x0d);
        let added = if plain {
            shorter.push(0x0d)
        } else {
            shorter
        };
        assert(whole == added.push(last));
        assert(whole.drop_last() =~= added);
        assert(shorter.push(0x0d).drop_last() =~= shorter);
        assert(without_returns(added) == without_returns(shorter));
        let old = choose|places: Seq<int>| #[trigger]
            ascending(places, shorter.len() as int) && places.len() == before.len() && forall|i: int|
                0 <= i < before.len() ==> shorter[#[trigger] places[i]] == before[i];
        let places = old.push(added.len() as int);
        assert forall|i: int| 0 <= i < bytes.len() implies whole[#[trigger] places[i]]
            == bytes[i] by {
            if i < before.len() {
                assert(places[i] == old[i]);
                assert(before[i] == bytes[i]);
            }
        }
        assert forall|i: int| 0 <= i < places.len() implies 0 <= #[trigger] places[i]
            < whole.len() by {
            if i < before.len() {
                assert(places[i] == old[i]);
            }
        }
        assert forall|i: int, k: int| 0 <= i < k < places.len() implies #[trigger] places[i]
            < #[trigger] places[k] by {
            assert(places[i] == old[i]);
            if k < before.len() {
                assert(places[k] == old[k]);
            }
        }
        assert(ascending(places, whole.len() as int));
        assert forall|i: int| 0 <= i < whole.len() && #[trigger] whole[i] == 0x0a implies i > 0
            && whole[i - 1] == 0x0d by {
            if i < shorter.len() {
                assert(whole[i] == shorter[i]);
            } else if !plain && i == shorter.len() {
                assert(before.len() > 0 && shorter.last() == before.last());
            }
        }
        if forall|i: int|
            0 <= i < bytes.len() && #[trigger] bytes[i] == 0x0a ==> i > 0 && bytes[i - 1] == 0x0d {
            assert forall|i: int| 0 <= i < before.len() && #[trigger] before[i] == 0x0a implies i
                > 0 && before[i - 1] == 0x0d by {
                assert(bytes[i] == before[i]);
            }
            assert(bytes[bytes.len() - 1] == last);
            assert(whole =~= bytes);
        }
    }
}

/// A capture can be made where the terminal has a size, pipes are asked for
/// nothing that only a pseudo-terminal does, and all input can be typed. What is
/// wrong is told, the first of these first.
pub proof fn law_capture_is_refused_for_a_reason(
    cols: u16,
    rows: u16,
    mode: CaptureMode,
    send: Seq<Seq<char>>,
    host: bool,
)
    ensures
        ({
            let fault = capture_fault(cols, rows, mode, send, host);
            let sized = cols > 0 && rows > 0;
            &&& fault is None <==> sized && typeable(send) && (mode == CaptureMode::Pty || (
            send.len() == 0 && !host))
            &&& !sized ==> fault == Some(CaptureFault::ZeroSize)
            &&& sized && mode == CaptureMode::Pipe && send.len() > 0 ==> fault == Some(
                CaptureFault::SendNeedsPty,
            )
            &&& sized && mode == CaptureMode::Pipe && send.len() == 0 && host ==> fault == Some(
                CaptureFault::HostNeedsPty,
            )
            &&& sized && mode == CaptureMode::Pty && !typeable(send) ==> exists|i: int| #[trigger]
                first_untypeable(send, i) && fault == Some(CaptureFault::Untypeable(send[i]))
        }),
{
    if !typeable(send) {
        assert(send.take(send.len() as int) =~= send);
        lemma_first_untypeable(send, send.len() as int);
        let i = choose|i: int| 0 <= i < send.len() && first_untypeable(send, i);
        assert(first_untypeable(send, i));
    }
}

proof fn lemma_first_untypeable(events: Seq<Seq<char>>, n: int)
    requires
        0 <= n <= events.len(),
        !typeable(events.take(n)),
    ensures
        exists|i: int| #[trigger] first_untypeable(events, i),
    decreases n,
{
    let some = events.take(n);
    if n > 0 && !typeable(events.take(n - 1)) {
        lemma_first_untypeable(events, n - 1);
    } else {
        let bad = choose|k: int| 0 <= k < n && event_bytes(#[trigger] some[k]) is None;
        assert(n > 0);
        assert forall|k: int| 0 <= k < n - 1 implies event_bytes(#[trigger] events[k]) is Some by {
            assert(events.take(n - 1)[k] == events[k]);
        }
        assert(some[bad] == events[bad]);
        assert(first_untypeable(events, n - 1));
    }
}

/// A capture waits for just the text that it was given, types just its input, in
/// one burst, and takes the screen once the output has been quiet for as long as
/// was asked; it waits no longer than its time allows.
pub proof fn law_capture_asks_for_what_it_was_given(script: CaptureScript, elapsed_ms: u64, i: int)
    requires
        0 <= i < capture_requests(script, time_left(script.deadline_ms, elapsed_ms)).len(),
    ensures
        ({
            let left = if elapsed_ms <= script.deadline_ms {
                script.deadline_ms - elapsed_ms
            } else {
                0
            };
            match capture_requests(script, time_left(script.deadline_ms, elapsed_ms))[i] {
                RequestView::Wait { text, timeout_ms } => script.wait_for is Some && text
                    == script.wait_for.unwrap()@ && timeout_ms == left,
                RequestView::Send { input, pace_ms } => input.len() == 1 && input[0]
                    == script.input@ && input[0].len() > 0 && pace_ms == 0,
                RequestView::Snapshot { settle_ms, deadline_ms } => settle_ms == script.settle_ms
                    && deadline_ms == left,
                _ => false,
            }
        }),
{
}

/// The screen of a stream is that of a new terminal of the size that was asked
/// for, once it has shown all of the stream at once, and the stream is kept as it
/// came.
pub proof fn law_stream_is_shown_whole(input: Seq<u8>, rows: u16, cols: u16)
    ensures
        screen_of(input, rows, cols).ansi == input,
        screen_of(input, rows, cols).frame == (TerminalView {
            rows,
            cols,
            fed: Seq::empty(),
        }).after(input).frame(),
        screen_of(input, rows, cols).frame.rows == rows,
        screen_of(input, rows, cols).frame.cols == cols,
{
    assert(Seq::<Seq<u8>>::empty().push(input) =~= seq![input]);
}

/// The path of a file is the stem, whatever it holds, and the ending of the file.
pub proof fn law_path_is_the_stem_and_the_ending(stem: Seq<u8>)
    ensures
        artifact_path(stem, Artifact::Json) == stem + seq![0x2eu8, 0x6a, 0x73, 0x6f, 0x6e],
        artifact_path(stem, Artifact::Text) == stem + seq![0x2eu8, 0x74, 0x78, 0x74],
        artifact_path(stem, Artifact::Ansi) == stem + seq![0x2eu8, 0x61, 0x6e, 0x73, 0x69],
        artifact_path(stem, Artifact::Svg) == stem + seq![0x2eu8, 0x73, 0x76, 0x67],
        artifact_path(stem, Artifact::Png) == stem + seq![0x2eu8, 0x70, 0x6e, 0x67],
{
    lemma_endings();
}

/// The files of a capture hold what was captured: the data and the pictures are
/// of the captured frame, the text file holds the visible text, and the stream
/// file the output as it came.
pub proof fn law_files_hold_the_capture(captured: CapturedView)
    ensures
        artifact_contents(captured, Artifact::Json) == ContentsView::Data(captured.frame),
        artifact_contents(captured, Artifact::Text) == ContentsView::Bytes(
            encode_utf8(captured.frame.text()),
        ),
        artifact_contents(captured, Artifact::Ansi) == ContentsView::Bytes(captured.ansi),
        artifact_contents(captured, Artifact::Svg) == ContentsView::Drawing(captured.frame),
        artifact_contents(captured, Artifact::Png) == ContentsView::Picture(captured.frame),
{
}

/// A capture writes and tells nothing but its files: each step writes one of them
/// with what it holds, or tells where it is, and there is one of each for every
/// file that is left.
pub proof fn law_capture_leaves_its_files_only(
    captured: CapturedView,
    stem: Seq<u8>,
    no_svg: bool,
    no_png: bool,
    i: int,
)
    ensures
        ({
            let steps = output_steps(captured, stem, no_svg, no_png);
            &&& steps.len() == 6 + if no_svg { 0int } else { 2int } + if no_png {
                0int
            } else {
                2int
            }
            &&& 0 <= i < steps.len() ==> exists|artifact: Artifact|
                (artifact == Artifact::Svg ==> !no_svg) && (artifact == Artifact::Png ==> !no_png)
                    && match steps[i] {
                    OutputStepView::Write { path, contents } => path == #[trigger] artifact_path(
                        stem,
                        artifact,
                    ) && contents == artifact_contents(captured, artifact),
                    OutputStepView::Print { path } => path == artifact_path(stem, artifact),
                }
        }),
{
    let steps = output_steps(captured, stem, no_svg, no_png);
    if 0 <= i < steps.len() {
        let artifact = if i == 0 || i == steps.len() - 3 {
            Artifact::Json
        } else if i == 1 || i == steps.len() - 2 {
            Artifact::Text
        } else if i == 2 || i == steps.len() - 1 {
            Artifact::Ansi
        } else if i < 5 && !no_svg {
            Artifact::Svg
        } else {
            Artifact::Png
        };
        assert(steps[i] == write_step(captured, stem, artifact) || steps[i] == print_step(
            stem,
            artifact,
        ));
        assert(artifact_path(stem, artifact) == artifact_path(stem, artifact));
    }
}

/// To ask for colour and to refuse it undo each other: what the one sets, the
/// other removes or sets otherwise, and no variable is touched twice. Where
/// neither is asked, nothing changes.
pub proof fn law_colour_is_asked_for_or_refused()
    ensures
        color_changes(ColorMode::Auto).len() == 0,
        color_changes(ColorMode::Always).contains(
            ChangeView { name: "NO_COLOR"@, value: None },
        ),
        color_changes(ColorMode::Always).contains(
            ChangeView { name: "FORCE_COLOR"@, value: Some("1"@) },
        ),
        color_changes(ColorMode::Always).contains(
            ChangeView { name: "CLICOLOR_FORCE"@, value: Some("1"@) },
        ),
        color_changes(ColorMode::Never).contains(
            ChangeView { name: "NO_COLOR"@, value: Some("1"@) },
        ),
        color_changes(ColorMode::Never).contains(
            ChangeView { name: "FORCE_COLOR"@, value: None },
        ),
        color_changes(ColorMode::Never).contains(
            ChangeView { name: "CLICOLOR_FORCE"@, value: None },
        ),
        color_changes(ColorMode::Never).contains(
            ChangeView { name: "CLICOLOR"@, value: Some("0"@) },
        ),
        color_changes(ColorMode::Always).len() == 3,
        color_changes(ColorMode::Never).len() == 4,
{
    let always = color_changes(ColorMode::Always);
    let never = color_changes(ColorMode::Never);
    assert(always[0] == (ChangeView { name: "NO_COLOR"@, value: None }));
    assert(always[1] == (ChangeView { name: "FORCE_COLOR"@, value: Some("1"@) }));
    assert(always[2] == (ChangeView { name: "CLICOLOR_FORCE"@, value: Some("1"@) }));
    assert(never[0] == (ChangeView { name: "FORCE_COLOR"@, value: None }));
    assert(never[1] == (ChangeView { name: "CLICOLOR_FORCE"@, value: None }));
    assert(never[2] == (ChangeView { name: "NO_COLOR"@, value: Some("1"@) }));
    assert(never[3] == (ChangeView { name: "CLICOLOR"@, value: Some("0"@) }));
}

/// What a user is told of a capture names the limit that was passed, or the event
/// that cannot be typed.
pub proof fn law_messages_are_complete(max_bytes: usize, error: InputError)
    ensures
        CaptureError::InputTooLong(max_bytes).told() == "terminal input exceeds --max-bytes ("@
            + decimal(max_bytes as nat) + ")"@,
        CaptureError::OutputTooLong(max_bytes).told() == "terminal output exceeds --max-bytes ("@
            + decimal(max_bytes as nat) + ")"@,
        CaptureError::Input(error).told() == error.told(),
        error.told() == "unsupported --send event "@ + debug_text(error.event@)
            + "; use text:<value>, ctrl-a through ctrl-z, enter, escape, up, down, left, right, tab, shift-tab, backspace, delete, home, end, page-up, or page-down"@,
{
}

/// The values of the steps of a capture, and of what changes in the environment,
/// hold everything that those do.
pub proof fn law_step_values_are_complete(
    steps: Seq<OutputStep<'_>>,
    change: Change,
    frame: Frame,
    bytes: Vec<u8>,
    i: int,
)
    ensures
        step_views(steps).len() == steps.len(),
        0 <= i < steps.len() ==> match steps[i] {
            OutputStep::Write { path, contents } => step_views(steps)[i] == (
            OutputStepView::Write { path: path@, contents: contents@ }),
            OutputStep::Print { path } => step_views(steps)[i] == (OutputStepView::Print {
                path: path@,
            }),
        },
        Contents::Data(&frame)@ == ContentsView::Data(frame@),
        Contents::Bytes(bytes)@ == ContentsView::Bytes(bytes@),
        Contents::Drawing(&frame)@ == ContentsView::Drawing(frame@),
        Contents::Picture(&frame)@ == ContentsView::Picture(frame@),
        change@.name == change.name@,
        change.value is None <==> change@.value is None,
        change.value matches Some(value) ==> change@.value == Some(value@),
{
}

} // verus!
