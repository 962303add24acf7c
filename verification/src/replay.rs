//! The replay of a recording as the frames of a video.

use vstd::prelude::*;
use vstd::string::*;
use vstd::utf8::*;
use crate::frame::{Frame, FrameView};
use crate::recording::{entries, line_views, read, read_lines, Entry, EntryView, Line, LineView};
use crate::recording::{Recording, RecordingError, RecordingFault, RecordingView};
use crate::terminal::{from_screen, lemma_takes_fewer, takes, terminal, Terminal, TerminalView};
use crate::text::{bytes_of, chunks, copy_bytes, decimal, number, padded_number, six_digits};

verus! {

/// How a recording is replayed.
#[derive(Debug, PartialEq, Eq)]
pub struct VideoOptions {
    /// Replaces the recorded width of a cell.
    pub cell_width: Option<u16>,
    /// Replaces the recorded height of a cell.
    pub cell_height: Option<u16>,
    /// Sampled frames per second.
    pub fps: u32,
    /// The longest time for which a screen is held, where there is a limit.
    pub max_idle_ms: Option<u64>,
    /// How long the last screen is held.
    pub tail_ms: u64,
    /// Whether the screens before the first visible one are kept.
    pub from_launch: bool,
}

/// A screen and the time at which it appeared.
#[derive(Debug, PartialEq, Eq)]
pub struct VideoFrame {
    pub at_ms: u64,
    pub frame: Frame,
}

/// A screen and its time as a mathematical value.
pub struct Shown {
    pub at_ms: u64,
    pub frame: FrameView,
}

impl View for VideoFrame {
    type V = Shown;

    open spec fn view(&self) -> Shown {
        Shown { at_ms: self.at_ms, frame: self.frame@ }
    }
}

/// The values behind some screens.
pub open spec fn shown(list: Seq<VideoFrame>) -> Seq<Shown> {
    list.map_values(|state: VideoFrame| state@)
}

/// The values behind some frames.
pub open spec fn frame_views(list: Seq<Frame>) -> Seq<FrameView> {
    list.map_values(|frame: Frame| frame@)
}

// ---------------------------------------------------------------- screens

/// The terminal of a recording after some of its events: the output shows, the
/// input does not, and a resize leaves the replayed terminal as it is.
pub open spec fn replayed(rows: u16, cols: u16, events: Seq<EntryView>) -> TerminalView
    decreases events.len(),
{
    if events.len() == 0 {
        TerminalView { rows, cols, fed: Seq::empty() }
    } else {
        let before = replayed(rows, cols, events.drop_last());
        match events.last() {
            EntryView::Output { at_ms, bytes } => before.after(bytes),
            _ => before,
        }
    }
}

/// The different screens of a recording: the empty one at the start, and each
/// screen that some output turned into another one.
pub open spec fn screens(rows: u16, cols: u16, events: Seq<EntryView>) -> Seq<Shown>
    decreases events.len(),
{
    if events.len() == 0 {
        seq![Shown { at_ms: 0, frame: replayed(rows, cols, events).frame() }]
    } else {
        let before = screens(rows, cols, events.drop_last());
        match events.last() {
            EntryView::Output { at_ms, bytes } => {
                let frame = replayed(rows, cols, events).frame();
                if before.last().frame == frame {
                    before
                } else {
                    before.push(Shown { at_ms, frame })
                }
            },
            _ => before,
        }
    }
}

/// Whether the terminal emulator takes the output of a recording.
pub open spec fn playable(rows: u16, cols: u16, events: Seq<EntryView>) -> bool {
    rows > 0 && cols > 0 && replayed(rows, cols, events).wf()
}

proof fn lemma_playable_beginning(rows: u16, cols: u16, events: Seq<EntryView>, n: int)
    requires
        playable(rows, cols, events),
        0 <= n <= events.len(),
    ensures
        playable(rows, cols, events.take(n)),
    decreases events.len() - n,
{
    if n == events.len() {
        assert(events.take(n) =~= events);
    } else {
        lemma_playable_beginning(rows, cols, events, n + 1);
        assert(events.take(n + 1).drop_last() =~= events.take(n));
        lemma_replayed_size(rows, cols, events.take(n));
        match events[n] {
            EntryView::Output { at_ms, bytes } => {
                lemma_takes_fewer(rows, cols, replayed(rows, cols, events.take(n)).fed, bytes);
            },
            _ => {},
        }
    }
}

proof fn lemma_replayed_size(rows: u16, cols: u16, events: Seq<EntryView>)
    ensures
        replayed(rows, cols, events).rows == rows,
        replayed(rows, cols, events).cols == cols,
    decreases events.len(),
{
    if events.len() > 0 {
        lemma_replayed_size(rows, cols, events.drop_last());
    }
}

/// Whether the terminal emulator takes the output of a recording.
pub fn is_playable(recording: &Recording) -> (fits: bool)
    ensures
        fits == playable(recording.rows, recording.cols, recording@.events),
{
    let ghost rows = recording.rows;
    let ghost cols = recording.cols;
    let ghost events = recording@.events;
    if recording.rows == 0 || recording.cols == 0 {
        return false;
    }
    let mut parser: Terminal = terminal(recording.rows, recording.cols);
    let mut i: usize = 0;
    assert(events.take(0) =~= Seq::<EntryView>::empty());
    while i < recording.events.len()
        invariant
            i <= recording.events@.len(),
            rows == recording.rows,
            cols == recording.cols,
            rows > 0,
            cols > 0,
            events == recording@.events,
            parser.wf(),
            parser@ == replayed(rows, cols, events.take(i as int)),
        decreases recording.events@.len() - i,
    {
        assert(events.take(i + 1).drop_last() =~= events.take(i as int));
        assert(events.take(i + 1).last() == recording.events@[i as int]@);
        if let Entry::Output { at_ms, bytes } = &recording.events[i] {
            if !parser.takes(bytes.as_slice()) {
                proof {
                    if playable(rows, cols, events) {
                        lemma_playable_beginning(rows, cols, events, i + 1);
                    }
                }
                return false;
            }
            parser.process(bytes.as_slice());
        }
        i += 1;
    }
    assert(events.take(i as int) =~= events);
    true
}

/// The different screens of a recording.
pub fn states(recording: &Recording) -> (states: Vec<VideoFrame>)
    requires
        playable(recording.rows, recording.cols, recording@.events),
    ensures
        shown(states@) == screens(recording.rows, recording.cols, recording@.events),
{
    let ghost rows = recording.rows;
    let ghost cols = recording.cols;
    let ghost events = recording@.events;
    let mut parser: Terminal = terminal(recording.rows, recording.cols);
    let mut frames: Vec<VideoFrame> = Vec::new();
    frames.push(VideoFrame { at_ms: 0, frame: from_screen(&parser) });
    let mut i: usize = 0;
    assert(events.take(0) =~= Seq::<EntryView>::empty());
    assert(shown(frames@) =~= screens(rows, cols, events.take(0)));
    while i < recording.events.len()
        invariant
            i <= recording.events@.len(),
            rows == recording.rows,
            cols == recording.cols,
            events == recording@.events,
            playable(rows, cols, events),
            parser@ == replayed(rows, cols, events.take(i as int)),
            parser.wf(),
            frames@.len() > 0,
            shown(frames@) == screens(rows, cols, events.take(i as int)),
        decreases recording.events@.len() - i,
    {
        let ghost before = frames@;
        assert(events.take(i + 1).drop_last() =~= events.take(i as int));
        assert(events.take(i + 1).last() == recording.events@[i as int]@);
        if let Entry::Output { at_ms, bytes } = &recording.events[i] {
            proof {
                lemma_playable_beginning(rows, cols, events, i + 1);
            }
            parser.process(bytes.as_slice());
            let frame = from_screen(&parser);
            assert(shown(before).last() == before.last()@);
            if !frames[frames.len() - 1].frame.same(&frame) {
                frames.push(VideoFrame { at_ms: *at_ms, frame });
                assert(shown(frames@) =~= shown(before).push(frames@.last()@));
            }
        }
        i += 1;
    }
    assert(events.take(i as int) =~= events);
    frames
}

// ---------------------------------------------------------------- timeline

/// The moment of one frame, in whole milliseconds: so many frames into a video
/// of so many frames per second.
pub open spec fn sample_ms(fps: u32, frame: nat) -> nat {
    frame * 1000 / (fps as nat)
}

/// The time between two screens as it is replayed.
pub open spec fn gap(from_ms: u64, to_ms: u64, max_idle_ms: Option<u64>) -> nat {
    let gap = if to_ms >= from_ms {
        (to_ms - from_ms) as nat
    } else {
        0
    };
    match max_idle_ms {
        Some(limit) => if gap <= limit {
            gap
        } else {
            limit as nat
        },
        None => gap,
    }
}

/// When a screen appears in the replay; the first appears at once.
pub open spec fn replay_ms(states: Seq<Shown>, max_idle_ms: Option<u64>, i: int) -> nat
    decreases i,
{
    if i <= 0 {
        0
    } else {
        replay_ms(states, max_idle_ms, i - 1) + gap(
            states[i - 1].at_ms,
            states[i].at_ms,
            max_idle_ms,
        )
    }
}

/// When the replay ends.
pub open spec fn end_ms(states: Seq<Shown>, max_idle_ms: Option<u64>, tail_ms: u64) -> nat {
    replay_ms(states, max_idle_ms, states.len() - 1) + tail_ms as nat
}

/// The last of the first `n` screens that has appeared by some time.
pub open spec fn showing(states: Seq<Shown>, max_idle_ms: Option<u64>, n: int, at: nat) -> int
    decreases n,
{
    if n <= 1 {
        0
    } else if replay_ms(states, max_idle_ms, n - 1) <= at {
        n - 1
    } else {
        showing(states, max_idle_ms, n - 1, at)
    }
}

/// The frames of the replay: the screen that shows at the moment of each frame,
/// until the end.
pub open spec fn sampled(
    states: Seq<Shown>,
    fps: u32,
    max_idle_ms: Option<u64>,
    tail_ms: u64,
) -> Seq<FrameView> {
    Seq::new(
        end_ms(states, max_idle_ms, tail_ms) * fps as nat / 1000 + 1,
        |k: int|
            states[showing(
                states,
                max_idle_ms,
                states.len() as int,
                sample_ms(fps, k as nat),
            )].frame,
    )
}

/// Whether the times of a replay can be counted.
pub open spec fn countable(states: Seq<Shown>, max_idle_ms: Option<u64>, tail_ms: u64) -> bool {
    end_ms(states, max_idle_ms, tail_ms) <= u64::MAX
}

proof fn lemma_replay_monotone(states: Seq<Shown>, max_idle_ms: Option<u64>, i: int, j: int)
    requires
        0 <= i <= j,
    ensures
        replay_ms(states, max_idle_ms, i) <= replay_ms(states, max_idle_ms, j),
    decreases j - i,
{
    if i < j {
        lemma_replay_monotone(states, max_idle_ms, i, j - 1);
    }
}

/// The last screen that has appeared is found by looking one ahead.
proof fn lemma_showing(states: Seq<Shown>, max_idle_ms: Option<u64>, n: int, at: nat, i: int)
    requires
        0 <= i < n,
        i == 0 || replay_ms(states, max_idle_ms, i) <= at,
        i + 1 < n ==> replay_ms(states, max_idle_ms, i + 1) > at,
    ensures
        showing(states, max_idle_ms, n, at) == i,
    decreases n,
{
    if n > 1 && i < n - 1 {
        lemma_replay_monotone(states, max_idle_ms, i + 1, n - 1);
        lemma_showing(states, max_idle_ms, n - 1, at, i);
    }
}

fn gap_ms(from_ms: u64, to_ms: u64, max_idle_ms: Option<u64>) -> (gap_ms: u64)
    ensures
        gap_ms == gap(from_ms, to_ms, max_idle_ms),
{
    let gap_ms: u64 = to_ms.saturating_sub(from_ms);
    match max_idle_ms {
        Some(limit) => if gap_ms <= limit {
            gap_ms
        } else {
            limit
        },
        None => gap_ms,
    }
}

/// When each screen appears in the replay, and the end, where the times can be
/// counted.
fn timeline(states: &Vec<VideoFrame>, options: &VideoOptions) -> (timeline: Option<(Vec<u64>, u64)>)
    requires
        states@.len() > 0,
    ensures
        timeline is Some == countable(shown(states@), options.max_idle_ms, options.tail_ms),
        timeline matches Some((times, end)) ==> {
            &&& times@.len() == states@.len()
            &&& forall|i: int|
                0 <= i < times@.len() ==> #[trigger] times@[i] == replay_ms(
                    shown(states@),
                    options.max_idle_ms,
                    i,
                )
            &&& end == end_ms(shown(states@), options.max_idle_ms, options.tail_ms)
        },
{
    let ghost list = shown(states@);
    let ghost last = states@.len() - 1;
    let mut times: Vec<u64> = Vec::new();
    let mut at_ms: u64 = 0;
    times.push(at_ms);
    let mut i: usize = 1;
    while i < states.len()
        invariant
            1 <= i <= states@.len(),
            list == shown(states@),
            last == states@.len() - 1,
            times@.len() == i,
            at_ms == replay_ms(list, options.max_idle_ms, i - 1),
            forall|k: int|
                0 <= k < i ==> #[trigger] times@[k] == replay_ms(list, options.max_idle_ms, k),
        decreases states@.len() - i,
    {
        assert(list[i - 1] == states@[i - 1]@);
        assert(list[i as int] == states@[i as int]@);
        let gap: u64 = gap_ms(states[i - 1].at_ms, states[i].at_ms, options.max_idle_ms);
        match at_ms.checked_add(gap) {
            Some(next) => {
                at_ms = next;
            },
            None => {
                proof {
                    lemma_replay_monotone(list, options.max_idle_ms, i as int, last);
                }
                return None;
            },
        }
        times.push(at_ms);
        i += 1;
    }
    match at_ms.checked_add(options.tail_ms) {
        Some(end) => Some((times, end)),
        None => None,
    }
}

/// Whether the times of a replay can be counted.
pub fn is_countable(states: &Vec<VideoFrame>, options: &VideoOptions) -> (fits: bool)
    requires
        states@.len() > 0,
    ensures
        fits == countable(shown(states@), options.max_idle_ms, options.tail_ms),
{
    timeline(states, options).is_some()
}

/// The frames of the replay: the screen that shows at the moment of each frame,
/// until the end.
pub fn samples(states: &Vec<VideoFrame>, options: &VideoOptions) -> (frames: Vec<Frame>)
    requires
        states@.len() > 0,
        options.fps > 0,
        countable(shown(states@), options.max_idle_ms, options.tail_ms),
    ensures
        frame_views(frames@) == sampled(
            shown(states@),
            options.fps,
            options.max_idle_ms,
            options.tail_ms,
        ),
{
    let ghost list = shown(states@);
    let ghost idle = options.max_idle_ms;
    let ghost all = sampled(list, options.fps, idle, options.tail_ms);
    let (times, end): (Vec<u64>, u64) = timeline(states, options).unwrap();
    let fps: u128 = options.fps as u128;
    proof {
        lemma_product_fits(end, options.fps);
    }
    let count: u128 = end as u128 * fps / 1000 + 1;
    let mut output: Vec<Frame> = Vec::new();
    let mut state: usize = 0;
    let mut k: u128 = 0;
    assert(frame_views(output@) =~= all.take(0));
    while k < count
        invariant
            list == shown(states@),
            idle == options.max_idle_ms,
            all == sampled(list, options.fps, idle, options.tail_ms),
            times@.len() == states@.len(),
            states@.len() > 0,
            forall|i: int| 0 <= i < times@.len() ==> #[trigger] times@[i] == replay_ms(list, idle, i),
            end == end_ms(list, idle, options.tail_ms),
            fps == options.fps,
            fps > 0,
            end * fps <= 0xffff_ffff_ffff_ffff_ffff_ffff,
            count == end * fps / 1000 + 1,
            all.len() == count,
            k <= count,
            state < states@.len(),
            state == 0 || (k > 0 && times@[state as int] <= sample_ms(
                options.fps,
                (k - 1) as nat,
            )),
            output@.len() == k,
            frame_views(output@) == all.take(k as int),
        decreases count - k,
    {
        proof {
            lemma_sample_in_time(end as int, fps as int, k as int);
            if k > 0 {
                lemma_samples_advance(fps as int, k - 1, k as int);
            }
        }
        let at_ms: u64 = (k * 1000 / fps) as u64;
        assert(at_ms == sample_ms(options.fps, k as nat));
        while times.len() - state > 1 && times[state + 1] <= at_ms
            invariant
                times@.len() == states@.len(),
                state < states@.len(),
                state == 0 || times@[state as int] <= at_ms,
            decreases states@.len() - state,
        {
            state += 1;
        }
        proof {
            lemma_showing(list, idle, list.len() as int, at_ms as nat, state as int);
            assert(list[state as int] == states@[state as int]@);
        }
        let ghost before = output@;
        output.push(states[state].frame.duplicate());
        assert(frame_views(output@) =~= frame_views(before).push(output@.last()@));
        assert(all.take(k + 1) =~= all.take(k as int).push(all[k as int]));
        k += 1;
    }
    assert(all.take(k as int) =~= all);
    output
}

proof fn lemma_product_fits(end: u64, fps: u32)
    ensures
        0 <= end * fps <= 0xffff_ffff_ffff_ffff_ffff_ffff,
{
    assert(0 <= end * fps <= 0xffff_ffff_ffff_ffff * 0xffff_ffff) by (nonlinear_arith)
        requires
            0 <= end <= 0xffff_ffff_ffff_ffff,
            0 <= fps <= 0xffff_ffff,
    ;
}

/// The moment of a frame of a video does not come after its end.
proof fn lemma_sample_in_time(end: int, fps: int, k: int)
    requires
        fps > 0,
        end >= 0,
        0 <= k <= end * fps / 1000,
    ensures
        0 <= k * 1000 / fps <= end,
{
    assert(k * 1000 <= end * fps);
    assert(0 <= k * 1000 / fps <= end) by (nonlinear_arith)
        requires
            fps > 0,
            0 <= k * 1000 <= end * fps,
    ;
}

proof fn lemma_samples_advance(fps: int, a: int, b: int)
    requires
        fps > 0,
        0 <= a <= b,
    ensures
        a * 1000 / fps <= b * 1000 / fps,
{
    vstd::arithmetic::div_mod::lemma_div_is_ordered(a * 1000, b * 1000, fps);
}

// ---------------------------------------------------------------- video

/// Where a replay starts: at the first screen that shows text; where no screen
/// does, at the first with a painted background; where there is none either,
/// past the end.
pub open spec fn opening(states: Seq<Shown>) -> int {
    if first_from(states, 0, false) < states.len() {
        first_from(states, 0, false)
    } else {
        first_from(states, 0, true)
    }
}

/// Whether a screen counts as visible: by its text, or by its backgrounds.
pub open spec fn counts(frame: FrameView, painted: bool) -> bool {
    if painted {
        frame.painted()
    } else {
        frame.visible_content()
    }
}

/// The first visible screen from some place on, or the length.
pub open spec fn first_from(states: Seq<Shown>, i: int, painted: bool) -> int
    decreases states.len() - i,
{
    if i >= states.len() || i < 0 {
        states.len() as int
    } else if counts(states[i].frame, painted) {
        i
    } else {
        first_from(states, i + 1, painted)
    }
}

/// Why a recording could not be replayed.
#[derive(Debug, PartialEq, Eq)]
pub enum VideoError {
    ZeroFps,
    /// The file could not be opened.
    Unopened(String),
    Unreadable(RecordingError),
    /// The terminal emulator does not take the recorded output at the recorded
    /// size.
    Undrawable,
    NothingVisible,
    /// The times of the replay exceed 64 bits.
    Uncountable,
}

/// Why a recording could not be replayed, as a mathematical value.
pub enum VideoFault {
    ZeroFps,
    Unopened(Seq<char>),
    Unreadable(RecordingFault),
    Undrawable,
    NothingVisible,
    Uncountable,
}

impl View for VideoError {
    type V = VideoFault;

    open spec fn view(&self) -> VideoFault {
        match *self {
            VideoError::ZeroFps => VideoFault::ZeroFps,
            VideoError::Unopened(cause) => VideoFault::Unopened(cause@),
            VideoError::Unreadable(error) => VideoFault::Unreadable(error@),
            VideoError::Undrawable => VideoFault::Undrawable,
            VideoError::NothingVisible => VideoFault::NothingVisible,
            VideoError::Uncountable => VideoFault::Uncountable,
        }
    }
}

impl VideoFault {
    /// What a user is told.
    pub open spec fn told(self) -> Seq<char> {
        match self {
            VideoFault::ZeroFps => "--fps must be greater than zero"@,
            VideoFault::Unopened(cause) => cause,
            VideoFault::Unreadable(fault) => fault.told(),
            VideoFault::Undrawable => "recorded output does not fit the recorded terminal size"@,
            VideoFault::NothingVisible => "recording contains no visible output frames"@,
            VideoFault::Uncountable => "recorded times are too large"@,
        }
    }
}

impl VideoError {
    /// What a user is told.
    pub fn message(&self) -> (message: String)
        ensures
            message@ == self@.told(),
    {
        match self {
            VideoError::ZeroFps => "--fps must be greater than zero".to_owned(),
            VideoError::Unopened(cause) => cause.clone(),
            VideoError::Unreadable(error) => error.message(),
            VideoError::Undrawable => "recorded output does not fit the recorded terminal size".to_owned(),
            VideoError::NothingVisible => "recording contains no visible output frames".to_owned(),
            VideoError::Uncountable => "recorded times are too large".to_owned(),
        }
    }
}

/// The frames of a video and the size at which their cells are drawn.
#[derive(Debug, PartialEq, Eq)]
pub struct Video {
    pub cell_width: u16,
    pub cell_height: u16,
    pub frames: Vec<Frame>,
}

/// A video as a mathematical value.
pub struct VideoView {
    pub cell_width: u16,
    pub cell_height: u16,
    pub frames: Seq<FrameView>,
}

impl View for Video {
    type V = VideoView;

    open spec fn view(&self) -> VideoView {
        VideoView {
            cell_width: self.cell_width,
            cell_height: self.cell_height,
            frames: frame_views(self.frames@),
        }
    }
}

/// What a file holds: its lines, or why it could not be opened.
pub open spec fn source_view(source: Result<Vec<Line>, String>) -> Result<
    Seq<LineView>,
    Seq<char>,
> {
    match source {
        Ok(lines) => Ok(line_views(lines@)),
        Err(cause) => Err(cause@),
    }
}

/// The screens that a replay shows.
pub open spec fn replay_states(recording: RecordingView, from_launch: bool) -> Seq<Shown> {
    let all = screens(recording.rows, recording.cols, recording.events);
    if from_launch {
        all
    } else {
        all.skip(opening(all))
    }
}

/// The video of a recording that was read.
pub open spec fn replay_video(recording: RecordingView, options: VideoOptions) -> Result<
    VideoView,
    VideoFault,
> {
    let states = replay_states(recording, options.from_launch);
    if !playable(recording.rows, recording.cols, recording.events) {
        Err(VideoFault::Undrawable)
    } else if states.len() == 0 {
        Err(VideoFault::NothingVisible)
    } else if !countable(states, options.max_idle_ms, options.tail_ms) {
        Err(VideoFault::Uncountable)
    } else {
        Ok(
            VideoView {
                cell_width: options.cell_width.unwrap_or(recording.cell_width),
                cell_height: options.cell_height.unwrap_or(recording.cell_height),
                frames: sampled(states, options.fps, options.max_idle_ms, options.tail_ms),
            },
        )
    }
}

/// The video of a recording file.
pub open spec fn video_of(
    source: Result<Seq<LineView>, Seq<char>>,
    options: VideoOptions,
) -> Result<VideoView, VideoFault> {
    if options.fps == 0 {
        Err(VideoFault::ZeroFps)
    } else {
        match source {
            Err(cause) => Err(VideoFault::Unopened(cause)),
            Ok(lines) => match read_lines(lines) {
                Err(fault) => Err(VideoFault::Unreadable(fault)),
                Ok(recording) => replay_video(recording, options),
            },
        }
    }
}

/// The first visible screen, or the number of screens.
fn first_visible(states: &Vec<VideoFrame>, painted: bool) -> (first: usize)
    ensures
        first == first_from(shown(states@), 0, painted),
        first <= states@.len(),
{
    let ghost list = shown(states@);
    let mut i: usize = 0;
    while i < states.len()
        invariant
            i <= states@.len(),
            list == shown(states@),
            first_from(list, 0, painted) == first_from(list, i as int, painted),
        decreases states@.len() - i,
    {
        assert(list[i as int] == states@[i as int]@);
        let found = if painted {
            states[i].frame.has_painted_background()
        } else {
            states[i].frame.has_visible_content()
        };
        if found {
            return i;
        }
        i += 1;
    }
    i
}

/// The screens that a replay shows.
fn trimmed(states: Vec<VideoFrame>) -> (kept: Vec<VideoFrame>)
    ensures
        shown(kept@) == shown(states@).skip(opening(shown(states@))),
{
    let ghost list = shown(states@);
    let text = first_visible(&states, false);
    let start = if text < states.len() {
        text
    } else {
        first_visible(&states, true)
    };
    let mut states = states;
    let kept = states.split_off(start);
    assert(shown(kept@) =~= list.skip(start as int));
    kept
}

/// The frames of a recording that was read.
pub fn replay(recording: &Recording, options: &VideoOptions) -> (video: Result<Video, VideoError>)
    requires
        options.fps > 0,
    ensures
        match video {
            Ok(video) => replay_video(recording@, *options) == Ok::<VideoView, VideoFault>(video@),
            Err(error) => replay_video(recording@, *options) == Err::<VideoView, VideoFault>(
                error@,
            ),
        },
{
    if !is_playable(recording) {
        return Err(VideoError::Undrawable);
    }
    let states = states(recording);
    let states = if options.from_launch {
        states
    } else {
        trimmed(states)
    };
    if states.is_empty() {
        return Err(VideoError::NothingVisible);
    }
    if !is_countable(&states, options) {
        return Err(VideoError::Uncountable);
    }
    let frames = samples(&states, options);
    Ok(
        Video {
            cell_width: options.cell_width.unwrap_or(recording.cell_width),
            cell_height: options.cell_height.unwrap_or(recording.cell_height),
            frames,
        },
    )
}

/// The video of a recording file, from its lines or from why it could not be
/// opened.
pub fn video(source: Result<Vec<Line>, String>, options: &VideoOptions) -> (video: Result<
    Video,
    VideoError,
>)
    ensures
        match video {
            Ok(video) => video_of(source_view(source), *options) == Ok::<VideoView, VideoFault>(
                video@,
            ),
            Err(error) => video_of(source_view(source), *options) == Err::<VideoView, VideoFault>(
                error@,
            ),
        },
{
    if options.fps == 0 {
        return Err(VideoError::ZeroFps);
    }
    let lines = match source {
        Ok(lines) => lines,
        Err(cause) => return Err(VideoError::Unopened(cause)),
    };
    match read(lines) {
        Ok(recording) => replay(&recording, options),
        Err(error) => Err(VideoError::Unreadable(error)),
    }
}

/// The name of the picture of one frame.
pub fn frame_file(index: u64) -> (name: String)
    ensures
        name@ == "frame-"@ + six_digits(index as nat) + ".png"@,
{
    "frame-".to_owned().concat(padded_number(index).as_str()).concat(".png")
}

/// The arguments with which `ffmpeg` makes a video of numbered pictures.
pub open spec fn encoder_arguments(fps: u32, pictures: Seq<u8>, out: Seq<u8>) -> Seq<Seq<u8>> {
    seq![
        encode_utf8("-y"@),
        encode_utf8("-loglevel"@),
        encode_utf8("error"@),
        encode_utf8("-framerate"@),
        encode_utf8(decimal(fps as nat)),
        encode_utf8("-i"@),
        pictures,
        encode_utf8("-vf"@),
        encode_utf8("format=yuv420p"@),
        encode_utf8("-movflags"@),
        encode_utf8("+faststart"@),
        out,
    ]
}

/// The arguments with which `ffmpeg` makes a video of numbered pictures.
pub fn ffmpeg_arguments(fps: u32, pictures: &[u8], out: &[u8]) -> (arguments: Vec<Vec<u8>>)
    ensures
        chunks(arguments@) == encoder_arguments(fps, pictures@, out@),
{
    let arguments: Vec<Vec<u8>> = vec![
        bytes_of("-y"),
        bytes_of("-loglevel"),
        bytes_of("error"),
        bytes_of("-framerate"),
        bytes_of(number(fps as u64).as_str()),
        bytes_of("-i"),
        copy_bytes(pictures),
        bytes_of("-vf"),
        bytes_of("format=yuv420p"),
        bytes_of("-movflags"),
        bytes_of("+faststart"),
        copy_bytes(out),
    ];
    assert(chunks(arguments@) =~= encoder_arguments(fps, pictures@, out@));
    arguments
}

// ---------------------------------------------------------------- laws

/// The screens of a recording tell its story without repetition: the first is
/// the empty screen at time zero, no two neighbours are the same, and the last
/// is what the terminal shows after every event.
pub proof fn law_screens_change(rows: u16, cols: u16, events: Seq<EntryView>)
    ensures
        ({
            let all = screens(rows, cols, events);
            &&& all.len() > 0
            &&& all.first() == (Shown {
                at_ms: 0,
                frame: (TerminalView { rows, cols, fed: Seq::empty() }).frame(),
            })
            &&& all.last().frame == replayed(rows, cols, events).frame()
            &&& forall|i: int|
                1 <= i < all.len() ==> (#[trigger] all[i]).frame != all[i - 1].frame
        }),
    decreases events.len(),
{
    if events.len() > 0 {
        law_screens_change(rows, cols, events.drop_last());
    }
}

/// The output of a recording.
pub open spec fn outputs(events: Seq<EntryView>) -> Seq<EntryView>
    decreases events.len(),
{
    if events.len() == 0 {
        events
    } else if events.last() is Output {
        outputs(events.drop_last()).push(events.last())
    } else {
        outputs(events.drop_last())
    }
}

proof fn lemma_screens_of_outputs(rows: u16, cols: u16, events: Seq<EntryView>)
    ensures
        replayed(rows, cols, events) == replayed(rows, cols, outputs(events)),
        screens(rows, cols, events) == screens(rows, cols, outputs(events)),
    decreases events.len(),
{
    if events.len() > 0 {
        let before = events.drop_last();
        lemma_screens_of_outputs(rows, cols, before);
        assert(outputs(before).push(events.last()).drop_last() =~= outputs(before));
    }
}

/// Only output shows: recordings of one size with the same output have the same
/// screens, whatever input and other entries they hold.
pub proof fn law_only_output_is_shown(
    rows: u16,
    cols: u16,
    events: Seq<EntryView>,
    others: Seq<EntryView>,
)
    requires
        outputs(events) == outputs(others),
    ensures
        screens(rows, cols, events) == screens(rows, cols, others),
        playable(rows, cols, events) == playable(rows, cols, others),
{
    lemma_screens_of_outputs(rows, cols, events);
    lemma_screens_of_outputs(rows, cols, others);
}

/// When an entry was made; a header is made at the start.
pub open spec fn entry_ms(entry: EntryView) -> u64 {
    match entry {
        EntryView::Header { version, cols, rows, cell_width, cell_height } => 0,
        EntryView::Output { at_ms, bytes } => at_ms,
        EntryView::Input { at_ms, origin, bytes } => at_ms,
        EntryView::Resize { at_ms, cols, rows } => at_ms,
    }
}

/// There are no more screens than the empty one and one for each output, each
/// screen has the time of some output, and where the output is in the order of
/// time, so are the screens.
pub proof fn law_screens_keep_the_times_of_output(rows: u16, cols: u16, events: Seq<EntryView>)
    ensures
        ({
            let all = screens(rows, cols, events);
            let list = outputs(events);
            let ordered = forall|a: int, b: int|
                0 <= a <= b < list.len() ==> entry_ms(#[trigger] list[a]) <= entry_ms(
                    #[trigger] list[b],
                );
            &&& 1 <= all.len() <= 1 + list.len()
            &&& forall|i: int|
                1 <= i < all.len() ==> exists|k: int|
                    0 <= k < list.len() && entry_ms(#[trigger] list[k]) == (
                    #[trigger] all[i]).at_ms
            &&& ordered ==> forall|a: int, b: int|
                0 <= a <= b < all.len() ==> (#[trigger] all[a]).at_ms <= (#[trigger] all[b]).at_ms
        }),
    decreases events.len(),
{
    if events.len() > 0 {
        let before = events.drop_last();
        law_screens_keep_the_times_of_output(rows, cols, before);
        let list = outputs(events);
        let shorter = outputs(before);
        let all = screens(rows, cols, events);
        let fewer = screens(rows, cols, before);
        if events.last() is Output {
            assert(list.drop_last() =~= shorter);
            assert forall|i: int| 1 <= i < all.len() implies exists|k: int|
                0 <= k < list.len() && entry_ms(#[trigger] list[k]) == (#[trigger] all[i]).at_ms by {
                if i < fewer.len() {
                    let k = choose|k: int|
                        0 <= k < shorter.len() && entry_ms(#[trigger] shorter[k])
                            == fewer[i].at_ms;
                    assert(list[k] == shorter[k]);
                    assert(all[i] == fewer[i]);
                } else {
                    assert(entry_ms(list[list.len() - 1]) == all[i].at_ms);
                }
            }
            if forall|a: int, b: int|
                0 <= a <= b < list.len() ==> entry_ms(#[trigger] list[a]) <= entry_ms(
                    #[trigger] list[b],
                ) {
                assert forall|a: int, b: int| 0 <= a <= b < shorter.len() implies entry_ms(
                    #[trigger] shorter[a],
                ) <= entry_ms(#[trigger] shorter[b]) by {
                    assert(list[a] == shorter[a] && list[b] == shorter[b]);
                }
                assert forall|a: int, b: int| 0 <= a <= b < all.len() implies (
                #[trigger] all[a]).at_ms <= (#[trigger] all[b]).at_ms by {
                    if b < fewer.len() {
                        assert(all[a] == fewer[a] && all[b] == fewer[b]);
                    } else if a < fewer.len() && a >= 1 {
                        let k = choose|k: int|
                            0 <= k < shorter.len() && entry_ms(#[trigger] shorter[k])
                                == fewer[a].at_ms;
                        assert(list[k] == shorter[k]);
                        assert(all[a] == fewer[a]);
                        assert(entry_ms(list[list.len() - 1]) == all[b].at_ms);
                    } else if a == 0 && fewer.len() > 0 {
                        law_screens_change(rows, cols, before);
                        assert(all[0] == fewer[0]);
                    }
                }
            }
        }
    }
}

/// A video lasts as long as the replay: at so many frames per second, its last
/// frame is due by the end, and one more would be due later.
pub proof fn law_video_lasts_as_long_as_the_replay(
    states: Seq<Shown>,
    fps: u32,
    max_idle_ms: Option<u64>,
    tail_ms: u64,
)
    ensures
        ({
            let frames = sampled(states, fps, max_idle_ms, tail_ms).len();
            let end = end_ms(states, max_idle_ms, tail_ms);
            (frames - 1) * 1000 <= end * fps < frames * 1000
        }),
{
    let total = end_ms(states, max_idle_ms, tail_ms) * fps;
    assert(total >= 0) by (nonlinear_arith)
        requires
            total == end_ms(states, max_idle_ms, tail_ms) * fps,
    ;
}

/// Each frame shows its own moment, less than a millisecond early.
pub proof fn law_frames_follow_the_clock(fps: u32, frame: nat)
    requires
        fps > 0,
    ensures
        sample_ms(fps, frame) * fps <= frame * 1000 < (sample_ms(fps, frame) + 1) * fps,
{
    let n = fps as int;
    let total = frame * 1000;
    vstd::arithmetic::div_mod::lemma_fundamental_div_mod(total as int, n);
    vstd::arithmetic::div_mod::lemma_mod_bound(total as int, n);
    let at = sample_ms(fps, frame) as int;
    assert(n * at == at * n) by (nonlinear_arith);
    assert((at + 1) * n == at * n + n) by (nonlinear_arith);
}

/// Without a limit on idle time a replay keeps the recorded timing: a screen
/// appears as long after the first one as it did in the session.
pub proof fn law_replay_keeps_real_timing(states: Seq<Shown>, i: int)
    requires
        0 <= i < states.len(),
        forall|a: int, b: int|
            0 <= a <= b < states.len() ==> (#[trigger] states[a]).at_ms <= (
            #[trigger] states[b]).at_ms,
    ensures
        replay_ms(states, None, i) == states[i].at_ms - states[0].at_ms,
    decreases i,
{
    if i > 0 {
        law_replay_keeps_real_timing(states, i - 1);
    }
}

/// A limit on idle time caps how long each screen is held, and changes nothing
/// else: the time from a screen to the next one is the recorded time or the limit,
/// whichever is less, and no screen appears before the one that it follows.
pub proof fn law_idle_time_is_capped(states: Seq<Shown>, limit: u64, i: int)
    requires
        0 <= i,
    ensures
        ({
            let recorded = states[i + 1].at_ms - states[i].at_ms;
            let held = replay_ms(states, Some(limit), i + 1) - replay_ms(states, Some(limit), i);
            &&& recorded < 0 ==> held == 0
            &&& 0 <= recorded <= limit ==> held == recorded
            &&& recorded > limit ==> held == limit
        }),
        0 <= replay_ms(states, Some(limit), i + 1) - replay_ms(states, Some(limit), i) <= limit,
        replay_ms(states, Some(limit), i) <= replay_ms(states, None, i),
    decreases i,
{
    if i > 0 {
        law_idle_time_is_capped(states, limit, i - 1);
    }
}

proof fn lemma_showing_bounds(states: Seq<Shown>, max_idle_ms: Option<u64>, n: int, at: nat)
    requires
        n >= 1,
    ensures
        0 <= showing(states, max_idle_ms, n, at) < n,
        replay_ms(states, max_idle_ms, showing(states, max_idle_ms, n, at)) <= at,
        forall|i: int|
            showing(states, max_idle_ms, n, at) < i < n ==> replay_ms(
                states,
                max_idle_ms,
                i,
            ) > at,
    decreases n,
{
    if n > 1 && replay_ms(states, max_idle_ms, n - 1) > at {
        lemma_showing_bounds(states, max_idle_ms, n - 1, at);
    }
}

/// A replay shows the screens in their order: a later moment never shows an
/// earlier screen, and what shows at a moment is the last screen that has
/// appeared by then.
pub proof fn law_screens_show_in_order(
    states: Seq<Shown>,
    max_idle_ms: Option<u64>,
    earlier: nat,
    later: nat,
)
    requires
        states.len() > 0,
        earlier <= later,
    ensures
        ({
            let n = states.len() as int;
            let a = showing(states, max_idle_ms, n, earlier);
            let b = showing(states, max_idle_ms, n, later);
            &&& 0 <= a <= b < n
            &&& replay_ms(states, max_idle_ms, a) <= earlier
            &&& forall|i: int| a < i < n ==> #[trigger] replay_ms(states, max_idle_ms, i) > earlier
        }),
{
    let n = states.len() as int;
    lemma_showing_bounds(states, max_idle_ms, n, earlier);
    lemma_showing_bounds(states, max_idle_ms, n, later);
    let a = showing(states, max_idle_ms, n, earlier);
    let b = showing(states, max_idle_ms, n, later);
    if b < a {
        assert(replay_ms(states, max_idle_ms, a) > later);
    }
}

/// The last screen is held at the end: where the tail is as long as a frame, the
/// last frame of a video is the last screen.
pub proof fn law_last_screen_is_held(
    states: Seq<Shown>,
    fps: u32,
    max_idle_ms: Option<u64>,
    tail_ms: u64,
)
    requires
        states.len() > 0,
        fps > 0,
        tail_ms * fps >= 999,
    ensures
        sampled(states, fps, max_idle_ms, tail_ms).len() > 0,
        sampled(states, fps, max_idle_ms, tail_ms).last() == states.last().frame,
{
    let n = states.len() as int;
    let start = replay_ms(states, max_idle_ms, n - 1) as int;
    let end = end_ms(states, max_idle_ms, tail_ms) as int;
    let rate = fps as int;
    let total = end * rate;
    let k = total / 1000;
    assert(total == start * rate + tail_ms * fps) by (nonlinear_arith)
        requires
            total == end * rate,
            end == start + tail_ms,
            rate == fps,
    ;
    assert(start * rate >= 0) by (nonlinear_arith)
        requires
            start >= 0,
            rate > 0,
    ;
    assert(k * 1000 >= start * rate);
    assert(k * 1000 / rate >= start) by (nonlinear_arith)
        requires
            k * 1000 >= start * rate,
            rate > 0,
    ;
    lemma_showing(states, max_idle_ms, n, sample_ms(fps, k as nat), n - 1);
}

proof fn lemma_first_from(states: Seq<Shown>, i: int, painted: bool)
    requires
        0 <= i <= states.len(),
    ensures
        i <= first_from(states, i, painted) <= states.len(),
        forall|k: int|
            i <= k < first_from(states, i, painted) ==> !counts(
                (#[trigger] states[k]).frame,
                painted,
            ),
        first_from(states, i, painted) < states.len() ==> counts(
            states[first_from(states, i, painted)].frame,
            painted,
        ),
    decreases states.len() - i,
{
    if i < states.len() {
        lemma_first_from(states, i + 1, painted);
    }
}

/// A replay opens with the first screen that shows text. Where no screen does,
/// it opens with the first that paints a background, so that a recording of
/// backgrounds alone is kept; and only where there is neither is nothing left.
pub proof fn law_replay_opens_with_the_first_visible_screen(states: Seq<Shown>)
    ensures
        ({
            let start = opening(states);
            &&& 0 <= start <= states.len()
            &&& forall|k: int| 0 <= k < start ==> !(#[trigger] states[k]).frame.visible_content()
            &&& (exists|k: int|
                0 <= k < states.len() && (#[trigger] states[k]).frame.visible_content()) ==> start
                < states.len() && states[start].frame.visible_content()
            &&& start == states.len() <==> forall|k: int|
                0 <= k < states.len() ==> !(#[trigger] states[k]).frame.visible_content()
                    && !states[k].frame.painted()
            &&& start < states.len() && !states[start].frame.visible_content() ==> {
                &&& states[start].frame.painted()
                &&& forall|k: int| 0 <= k < start ==> !(#[trigger] states[k]).frame.painted()
                &&& forall|k: int|
                    0 <= k < states.len() ==> !(#[trigger] states[k]).frame.visible_content()
            }
        }),
{
    lemma_first_from(states, 0, false);
    lemma_first_from(states, 0, true);
    let start = opening(states);
    if start == states.len() {
        assert forall|k: int| 0 <= k < states.len() implies !(
        #[trigger] states[k]).frame.visible_content() && !states[k].frame.painted() by {
            assert(!counts(states[k].frame, false));
            assert(!counts(states[k].frame, true));
        }
    } else {
        assert(states[start].frame.visible_content() || states[start].frame.painted());
        assert forall|k: int| 0 <= k < start implies !(
        #[trigger] states[k]).frame.visible_content() by {
            assert(!counts(states[k].frame, false));
        }
        if !states[start].frame.visible_content() {
            assert forall|k: int| 0 <= k < start implies !(#[trigger] states[k]).frame.painted() by {
                assert(!counts(states[k].frame, true));
            }
            assert forall|k: int| 0 <= k < states.len() implies !(
            #[trigger] states[k]).frame.visible_content() by {
                assert(!counts(states[k].frame, false));
            }
        }
    }
    if exists|k: int| 0 <= k < states.len() && (#[trigger] states[k]).frame.visible_content() {
        let k = choose|k: int|
            0 <= k < states.len() && (#[trigger] states[k]).frame.visible_content();
        assert(counts(states[k].frame, false));
    }
}

/// Without a limit on idle time every screen is held as long as it was recorded,
/// and the first screen appears at once, with or without a limit.
pub proof fn law_screens_are_held_as_recorded(
    states: Seq<Shown>,
    max_idle_ms: Option<u64>,
    i: int,
)
    requires
        0 <= i,
    ensures
        replay_ms(states, max_idle_ms, 0) == 0,
        replay_ms(states, None, i + 1) - replay_ms(states, None, i) == if states[i + 1].at_ms
            > states[i].at_ms {
            states[i + 1].at_ms - states[i].at_ms
        } else {
            0
        },
{
}

/// Each frame of a video shows the screen of its moment, the one that has
/// appeared by then and whose successor has not, and the frames go on until the
/// last screen has been held for the tail.
pub proof fn law_frames_show_the_screens_of_their_moments(
    states: Seq<Shown>,
    fps: u32,
    max_idle_ms: Option<u64>,
    tail_ms: u64,
    k: int,
)
    requires
        states.len() > 0,
        fps > 0,
        0 <= k < sampled(states, fps, max_idle_ms, tail_ms).len(),
    ensures
        sampled(states, fps, max_idle_ms, tail_ms).len() == (replay_ms(
            states,
            max_idle_ms,
            states.len() - 1,
        ) + tail_ms) * fps as int / 1000 + 1,
        exists|i: int|
            0 <= i < states.len() && sampled(states, fps, max_idle_ms, tail_ms)[k] == (
            #[trigger] states[i]).frame && replay_ms(states, max_idle_ms, i) <= k * 1000 / (
            fps as int) && (i + 1 < states.len() ==> replay_ms(states, max_idle_ms, i + 1) > k
                * 1000 / (fps as int)),
{
    let n = states.len() as int;
    let at = sample_ms(fps, k as nat);
    let i = showing(states, max_idle_ms, n, at);
    lemma_showing_bounds(states, max_idle_ms, n, at);
    assert(sampled(states, fps, max_idle_ms, tail_ms)[k] == states[i].frame);
}

/// One more entry of a recording makes one more screen where it is output that
/// changes what the terminal shows: that screen, at the time of the output. Every
/// other entry leaves the screens as they are.
pub proof fn law_output_makes_the_next_screen(
    rows: u16,
    cols: u16,
    events: Seq<EntryView>,
    entry: EntryView,
)
    ensures
        replayed(rows, cols, Seq::empty()) == (TerminalView { rows, cols, fed: Seq::empty() }),
        ({
            let before = replayed(rows, cols, events);
            let after = replayed(rows, cols, events.push(entry));
            match entry {
                EntryView::Output { at_ms, bytes } => {
                    &&& after == TerminalView { fed: before.fed.push(bytes), ..before }
                    &&& after.frame() == before.frame() ==> screens(rows, cols, events.push(entry))
                        == screens(rows, cols, events)
                    &&& after.frame() != before.frame() ==> screens(rows, cols, events.push(entry))
                        == screens(rows, cols, events).push(
                        Shown { at_ms, frame: after.frame() },
                    )
                },
                _ => {
                    &&& after == before
                    &&& screens(rows, cols, events.push(entry)) == screens(rows, cols, events)
                },
            }
        }),
{
    assert(events.push(entry).drop_last() =~= events);
    law_screens_change(rows, cols, events);
}

/// A recording can be played where its terminal has a size and takes its output.
pub proof fn law_what_can_be_played(rows: u16, cols: u16, events: Seq<EntryView>)
    ensures
        playable(rows, cols, events) <==> rows > 0 && cols > 0 && takes(
            rows,
            cols,
            replayed(rows, cols, events).fed,
        ),
{
    lemma_replayed_size(rows, cols, events);
}

/// The video of a recording shows its screens from where it opens on: from the
/// launch where that is asked for, and otherwise from the first visible screen,
/// by its text, or by its background where no screen shows text. Cells have the
/// size that was asked for, or the recorded one. Nothing visible, output that the
/// terminal does not take and times past 64 bits are told.
pub proof fn law_video_shows_the_recording(
    recording: RecordingView,
    options: VideoOptions,
    start: int,
)
    requires
        ({
            let all = screens(recording.rows, recording.cols, recording.events);
            let bare = forall|k: int|
                0 <= k < all.len() ==> !(#[trigger] all[k]).frame.visible_content();
            &&& 0 <= start <= all.len()
            &&& options.from_launch ==> start == 0
            &&& !options.from_launch && !bare ==> start < all.len()
                && all[start].frame.visible_content() && forall|k: int|
                0 <= k < start ==> !(#[trigger] all[k]).frame.visible_content()
            &&& !options.from_launch && bare ==> {
                &&& start < all.len() ==> all[start].frame.painted()
                &&& forall|k: int| 0 <= k < start ==> !(#[trigger] all[k]).frame.painted()
            }
        }),
    ensures
        ({
            let all = screens(recording.rows, recording.cols, recording.events);
            let states = all.skip(start);
            let end = replay_ms(states, options.max_idle_ms, states.len() - 1) + options.tail_ms;
            let video = replay_video(recording, options);
            &&& video == Err::<VideoView, VideoFault>(VideoFault::Undrawable) <==> !playable(
                recording.rows,
                recording.cols,
                recording.events,
            )
            &&& video is Ok || video == Err::<VideoView, VideoFault>(VideoFault::Undrawable)
                || video == Err::<VideoView, VideoFault>(VideoFault::NothingVisible) || video
                == Err::<VideoView, VideoFault>(VideoFault::Uncountable)
            &&& video == Err::<VideoView, VideoFault>(VideoFault::NothingVisible) <==> playable(
                recording.rows,
                recording.cols,
                recording.events,
            ) && start == all.len()
            &&& video is Ok <==> playable(recording.rows, recording.cols, recording.events) && start
                < all.len() && end <= u64::MAX
            &&& video matches Ok(video) ==> {
                &&& video.frames == sampled(
                    states,
                    options.fps,
                    options.max_idle_ms,
                    options.tail_ms,
                )
                &&& match options.cell_width {
                    Some(width) => video.cell_width == width,
                    None => video.cell_width == recording.cell_width,
                }
                &&& match options.cell_height {
                    Some(height) => video.cell_height == height,
                    None => video.cell_height == recording.cell_height,
                }
            }
        }),
{
    let all = screens(recording.rows, recording.cols, recording.events);
    law_screens_change(recording.rows, recording.cols, recording.events);
    law_replay_opens_with_the_first_visible_screen(all);
    assert(all.skip(0) =~= all);
    if !options.from_launch {
        let found = opening(all);
        if found < start {
            assert(!all[found].frame.visible_content() || !all[found].frame.painted());
        }
        if start < found {
            assert(!all[start].frame.visible_content());
        }
        assert(found == start);
    }
}

/// A video needs frames in every second, a file that can be opened, and a
/// recording in it; what is missing is told, the first of these first.
pub proof fn law_video_tells_what_is_missing(
    source: Result<Seq<LineView>, Seq<char>>,
    options: VideoOptions,
)
    ensures
        options.fps == 0 ==> video_of(source, options) == Err::<VideoView, VideoFault>(
            VideoFault::ZeroFps,
        ),
        options.fps > 0 ==> match source {
            Err(cause) => video_of(source, options) == Err::<VideoView, VideoFault>(
                VideoFault::Unopened(cause),
            ),
            Ok(lines) => match read_lines(lines) {
                Err(fault) => video_of(source, options) == Err::<VideoView, VideoFault>(
                    VideoFault::Unreadable(fault),
                ),
                Ok(recording) => video_of(source, options) == replay_video(recording, options),
            },
        },
{
}

/// The encoder reads the numbered pictures at the rate of the video, asks no
/// questions, and writes the file that was asked for, in a form that every player
/// reads and that starts to play at once.
pub proof fn law_encoder_is_told_everything(fps: u32, pictures: Seq<u8>, out: Seq<u8>)
    ensures
        ({
            let words = encoder_arguments(fps, pictures, out);
            &&& words.len() == 12
            &&& words[0] == encode_utf8("-y"@)
            &&& words[1] == encode_utf8("-loglevel"@) && words[2] == encode_utf8("error"@)
            &&& words[3] == encode_utf8("-framerate"@) && words[4] == encode_utf8(
                decimal(fps as nat),
            )
            &&& words[5] == encode_utf8("-i"@) && words[6] == pictures
            &&& words[7] == encode_utf8("-vf"@) && words[8] == encode_utf8("format=yuv420p"@)
            &&& words[9] == encode_utf8("-movflags"@) && words[10] == encode_utf8("+faststart"@)
            &&& words[11] == out
        }),
{
}

/// The values of screens and frames keep every one of them, in its place.
pub proof fn law_screen_values_are_complete(states: Seq<VideoFrame>, frames: Seq<Frame>, i: int)
    ensures
        shown(states).len() == states.len(),
        0 <= i < states.len() ==> shown(states)[i].at_ms == states[i].at_ms
            && shown(states)[i].frame == states[i].frame@,
        frame_views(frames).len() == frames.len(),
        0 <= i < frames.len() ==> frame_views(frames)[i] == frames[i]@,
{
}

/// The value of a video, and of what a file holds, are complete.
pub proof fn law_video_values_are_complete(
    video: Video,
    source: Result<Vec<Line>, String>,
    i: int,
)
    ensures
        video@.cell_width == video.cell_width && video@.cell_height == video.cell_height,
        video@.frames.len() == video.frames@.len(),
        0 <= i < video.frames@.len() ==> video@.frames[i] == video.frames@[i]@,
        match source {
            Ok(lines) => source_view(source) is Ok && source_view(source)->Ok_0.len() == lines@.len()
                && (0 <= i < lines@.len() ==> source_view(source)->Ok_0[i] == lines@[i]@),
            Err(cause) => source_view(source) == Err::<Seq<LineView>, Seq<char>>(cause@),
        },
{
}

/// What a user is told of a video holds all of what it is about.
pub proof fn law_video_messages_are_complete(cause: Seq<char>, fault: RecordingFault)
    ensures
        VideoFault::Unopened(cause).told() == cause,
        VideoFault::Unreadable(fault).told() == fault.told(),
{
}

} // verus!
