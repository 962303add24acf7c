//! Recordings of a session: how they are written and read back.

use vstd::prelude::*;
use vstd::string::*;
use crate::text::{copy_bytes, decimal, number};

verus! {

/// The version of the recording layout.
pub const RECORDING_VERSION: u8 = 1;

/// The permissions of a recording file: its owner alone may use it.
pub const RECORDING_MODE: u32 = 0o600;

/// Who typed some input.
#[derive(Clone, Copy, Debug, PartialEq, Eq, Structural)]
pub enum InputOrigin {
    /// A user or a program that controls the session.
    Client,
    /// The terminal itself, in answer to a query of the application.
    Host,
}

/// One line of a recording.
#[derive(Debug, PartialEq, Eq)]
pub enum Entry {
    Header { version: u8, cols: u16, rows: u16, cell_width: u16, cell_height: u16 },
    Output { at_ms: u64, bytes: Vec<u8> },
    Input { at_ms: u64, origin: InputOrigin, bytes: Vec<u8> },
    /// The terminal took another size.
    Resize { at_ms: u64, cols: u16, rows: u16 },
}

/// A line of a recording as a mathematical value.
pub enum EntryView {
    Header { version: u8, cols: u16, rows: u16, cell_width: u16, cell_height: u16 },
    Output { at_ms: u64, bytes: Seq<u8> },
    Input { at_ms: u64, origin: InputOrigin, bytes: Seq<u8> },
    Resize { at_ms: u64, cols: u16, rows: u16 },
}

impl View for Entry {
    type V = EntryView;

    open spec fn view(&self) -> EntryView {
        match *self {
            Entry::Header { version, cols, rows, cell_width, cell_height } => EntryView::Header {
                version,
                cols,
                rows,
                cell_width,
                cell_height,
            },
            Entry::Output { at_ms, bytes } => EntryView::Output { at_ms, bytes: bytes@ },
            Entry::Input { at_ms, origin, bytes } => EntryView::Input {
                at_ms,
                origin,
                bytes: bytes@,
            },
            Entry::Resize { at_ms, cols, rows } => EntryView::Resize { at_ms, cols, rows },
        }
    }
}

/// The values behind some entries.
pub open spec fn entries(list: Seq<Entry>) -> Seq<EntryView> {
    list.map_values(|entry: Entry| entry@)
}

/// Makes the entries of a recording, in the order in which they are written.
pub struct Writer {
    started_ms: u64,
    log: Ghost<Seq<EntryView>>,
}

/// A recording that is being written, as a mathematical value: when the session
/// started, and every entry made so far.
pub struct WriterView {
    pub started_ms: u64,
    pub log: Seq<EntryView>,
}

impl View for Writer {
    type V = WriterView;

    closed spec fn view(&self) -> WriterView {
        WriterView { started_ms: self.started_ms, log: self.log@ }
    }
}

impl WriterView {
    /// The recording after one more entry.
    pub open spec fn after(self, entry: EntryView) -> WriterView {
        WriterView { log: self.log.push(entry), ..self }
    }

    /// The entry for some input at some time.
    pub open spec fn input(self, now_ms: u64, origin: InputOrigin, bytes: Seq<u8>) -> EntryView {
        EntryView::Input { at_ms: elapsed(self.started_ms, now_ms), origin, bytes }
    }
}

impl Writer {
    /// A new recording, and the header that opens it.
    pub fn new(started_ms: u64, cols: u16, rows: u16, cell_width: u16, cell_height: u16) -> (opened:
        (Writer, Entry))
        ensures
            opened.1@ == (EntryView::Header {
                version: RECORDING_VERSION,
                cols,
                rows,
                cell_width,
                cell_height,
            }),
            opened.0@ == (WriterView { started_ms, log: seq![opened.1@] }),
    {
        let header = Entry::Header {
            version: RECORDING_VERSION,
            cols,
            rows,
            cell_width,
            cell_height,
        };
        let ghost log = seq![header@];
        let writer = Writer { started_ms, log: Ghost(log) };
        (writer, header)
    }

    /// The entry for some output of the application.
    pub fn output(&mut self, at_ms: u64, bytes: &[u8]) -> (entry: Entry)
        ensures
            entry@ == (EntryView::Output { at_ms, bytes: bytes@ }),
            final(self)@ == old(self)@.after(entry@),
    {
        self.write(Entry::Output { at_ms, bytes: copy_bytes(bytes) })
    }

    /// The entry for some input, stamped with the time since the session
    /// started.
    pub fn input(&mut self, now_ms: u64, origin: InputOrigin, bytes: &[u8]) -> (entry: Entry)
        ensures
            entry@ == old(self)@.input(now_ms, origin, bytes@),
            final(self)@ == old(self)@.after(entry@),
    {
        let at_ms: u64 = now_ms.saturating_sub(self.started_ms);
        self.write(Entry::Input { at_ms, origin, bytes: copy_bytes(bytes) })
    }

    fn write(&mut self, entry: Entry) -> (written: Entry)
        ensures
            written == entry,
            final(self)@ == old(self)@.after(entry@),
    {
        self.log = Ghost(self.log@.push(entry@));
        entry
    }
}

/// The time from one instant to a later one.
pub open spec fn elapsed(from_ms: u64, to_ms: u64) -> u64 {
    if to_ms >= from_ms {
        (to_ms - from_ms) as u64
    } else {
        0
    }
}

/// What became of one line of a recording file.
#[derive(Debug, PartialEq, Eq)]
pub enum Line {
    /// The line could not be read.
    Unread(String),
    /// The line is not an entry.
    Unparsed(String),
    /// The entry of the line.
    Parsed(Entry),
}

/// A line as a mathematical value.
pub enum LineView {
    Unread(Seq<char>),
    Unparsed(Seq<char>),
    Parsed(EntryView),
}

impl View for Line {
    type V = LineView;

    open spec fn view(&self) -> LineView {
        match *self {
            Line::Unread(cause) => LineView::Unread(cause@),
            Line::Unparsed(cause) => LineView::Unparsed(cause@),
            Line::Parsed(entry) => LineView::Parsed(entry@),
        }
    }
}

/// The values behind some lines.
pub open spec fn line_views(list: Seq<Line>) -> Seq<LineView> {
    list.map_values(|line: Line| line@)
}

/// A recording without its header line.
#[derive(Debug, PartialEq, Eq)]
pub struct Recording {
    pub cols: u16,
    pub rows: u16,
    pub cell_width: u16,
    pub cell_height: u16,
    pub events: Vec<Entry>,
}

/// A recording as a mathematical value.
pub struct RecordingView {
    pub cols: u16,
    pub rows: u16,
    pub cell_width: u16,
    pub cell_height: u16,
    pub events: Seq<EntryView>,
}

impl View for Recording {
    type V = RecordingView;

    open spec fn view(&self) -> RecordingView {
        RecordingView {
            cols: self.cols,
            rows: self.rows,
            cell_width: self.cell_width,
            cell_height: self.cell_height,
            events: entries(self.events@),
        }
    }
}

/// Why a recording could not be read.
#[derive(Debug, PartialEq, Eq)]
pub enum RecordingError {
    Empty,
    HeaderUnread(String),
    HeaderUnparsed(String),
    NoHeader,
    Version(u8),
    EventUnread(String),
    EventUnparsed(String),
}

/// Why a recording could not be read, as a mathematical value.
pub enum RecordingFault {
    Empty,
    HeaderUnread(Seq<char>),
    HeaderUnparsed(Seq<char>),
    NoHeader,
    Version(u8),
    EventUnread(Seq<char>),
    EventUnparsed(Seq<char>),
}

impl View for RecordingError {
    type V = RecordingFault;

    open spec fn view(&self) -> RecordingFault {
        match *self {
            RecordingError::Empty => RecordingFault::Empty,
            RecordingError::HeaderUnread(cause) => RecordingFault::HeaderUnread(cause@),
            RecordingError::HeaderUnparsed(cause) => RecordingFault::HeaderUnparsed(cause@),
            RecordingError::NoHeader => RecordingFault::NoHeader,
            RecordingError::Version(version) => RecordingFault::Version(version),
            RecordingError::EventUnread(cause) => RecordingFault::EventUnread(cause@),
            RecordingError::EventUnparsed(cause) => RecordingFault::EventUnparsed(cause@),
        }
    }
}

impl RecordingFault {
    /// What a user is told.
    pub open spec fn told(self) -> Seq<char> {
        match self {
            RecordingFault::Empty => "recording is empty"@,
            RecordingFault::HeaderUnread(cause) => "read recording header: "@ + cause,
            RecordingFault::HeaderUnparsed(cause) => "parse recording header: "@ + cause,
            RecordingFault::NoHeader => "recording does not start with a header"@,
            RecordingFault::Version(version) => "unsupported recording version "@ + decimal(
                version as nat,
            ),
            RecordingFault::EventUnread(cause) => "read recording event: "@ + cause,
            RecordingFault::EventUnparsed(cause) => "parse recording event: "@ + cause,
        }
    }
}

impl RecordingError {
    /// What a user is told.
    pub fn message(&self) -> (message: String)
        ensures
            message@ == self@.told(),
    {
        match self {
            RecordingError::Empty => "recording is empty".to_owned(),
            RecordingError::HeaderUnread(cause) => "read recording header: ".to_owned().concat(
                cause.as_str(),
            ),
            RecordingError::HeaderUnparsed(cause) => "parse recording header: ".to_owned().concat(
                cause.as_str(),
            ),
            RecordingError::NoHeader => "recording does not start with a header".to_owned(),
            RecordingError::Version(version) => "unsupported recording version ".to_owned().concat(
                number(*version as u64).as_str(),
            ),
            RecordingError::EventUnread(cause) => "read recording event: ".to_owned().concat(
                cause.as_str(),
            ),
            RecordingError::EventUnparsed(cause) => "parse recording event: ".to_owned().concat(
                cause.as_str(),
            ),
        }
    }
}

/// The entry of a line after the header.
pub open spec fn line_event(line: LineView) -> Result<EntryView, RecordingFault> {
    match line {
        LineView::Unread(cause) => Err(RecordingFault::EventUnread(cause)),
        LineView::Unparsed(cause) => Err(RecordingFault::EventUnparsed(cause)),
        LineView::Parsed(entry) => Ok(entry),
    }
}

/// The entries of the lines after the header, or the first fault among them.
pub open spec fn line_events(lines: Seq<LineView>) -> Result<Seq<EntryView>, RecordingFault>
    decreases lines.len(),
{
    if lines.len() == 0 {
        Ok(Seq::empty())
    } else {
        match line_events(lines.drop_last()) {
            Err(fault) => Err(fault),
            Ok(before) => match line_event(lines.last()) {
                Err(fault) => Err(fault),
                Ok(entry) => Ok(before.push(entry)),
            },
        }
    }
}

/// The recording that some lines hold: a header of the known version, then
/// entries.
pub open spec fn read_lines(lines: Seq<LineView>) -> Result<RecordingView, RecordingFault> {
    if lines.len() == 0 {
        Err(RecordingFault::Empty)
    } else {
        match lines.first() {
            LineView::Unread(cause) => Err(RecordingFault::HeaderUnread(cause)),
            LineView::Unparsed(cause) => Err(RecordingFault::HeaderUnparsed(cause)),
            LineView::Parsed(EntryView::Header { version, cols, rows, cell_width, cell_height }) =>
            if version != RECORDING_VERSION {
                Err(RecordingFault::Version(version))
            } else {
                match line_events(lines.drop_first()) {
                    Err(fault) => Err(fault),
                    Ok(events) => Ok(
                        RecordingView { cols, rows, cell_width, cell_height, events },
                    ),
                }
            },
            LineView::Parsed(_) => Err(RecordingFault::NoHeader),
        }
    }
}

/// Once a line is faulty, so is every longer list.
proof fn lemma_fault_stays(lines: Seq<LineView>, n: int)
    requires
        0 <= n <= lines.len(),
        line_events(lines.take(n)) is Err,
    ensures
        line_events(lines) == line_events(lines.take(n)),
    decreases lines.len() - n,
{
    if n == lines.len() {
        assert(lines.take(n) =~= lines);
    } else {
        assert(lines.take(n + 1).drop_last() =~= lines.take(n));
        lemma_fault_stays(lines, n + 1);
    }
}

/// The recording that the lines of a file hold.
pub fn read(lines: Vec<Line>) -> (recording: Result<Recording, RecordingError>)
    ensures
        match recording {
            Ok(recording) => read_lines(line_views(lines@)) == Ok::<RecordingView, RecordingFault>(
                recording@,
            ),
            Err(error) => read_lines(line_views(lines@)) == Err::<RecordingView, RecordingFault>(
                error@,
            ),
        },
{
    let ghost views = line_views(lines@);
    let ghost rest = views.drop_first();
    if lines.len() == 0 {
        return Err(RecordingError::Empty);
    }
    assert(views.first() == lines@[0]@);
    let (cols, rows, cell_width, cell_height): (u16, u16, u16, u16) = match &lines[0] {
        Line::Unread(cause) => return Err(RecordingError::HeaderUnread(cause.clone())),
        Line::Unparsed(cause) => return Err(RecordingError::HeaderUnparsed(cause.clone())),
        Line::Parsed(Entry::Header { version, cols, rows, cell_width, cell_height }) => {
            if *version != RECORDING_VERSION {
                return Err(RecordingError::Version(*version));
            }
            (*cols, *rows, *cell_width, *cell_height)
        },
        Line::Parsed(_) => return Err(RecordingError::NoHeader),
    };
    let mut events: Vec<Entry> = Vec::new();
    let mut i: usize = 1;
    assert(rest.take(0) =~= Seq::<LineView>::empty());
    assert(entries(events@) =~= Seq::<EntryView>::empty());
    while i < lines.len()
        invariant
            1 <= i <= lines@.len(),
            views == line_views(lines@),
            rest == views.drop_first(),
            views.first() == LineView::Parsed(
                EntryView::Header {
                    version: RECORDING_VERSION,
                    cols,
                    rows,
                    cell_width,
                    cell_height,
                },
            ),
            line_events(rest.take(i - 1)) == Ok::<Seq<EntryView>, RecordingFault>(
                entries(events@),
            ),
        decreases lines@.len() - i,
    {
        assert(rest.take(i as int).drop_last() =~= rest.take(i - 1));
        assert(rest.take(i as int).last() == lines@[i as int]@);
        match &lines[i] {
            Line::Unread(cause) => {
                proof {
                    lemma_fault_stays(rest, i as int);
                }
                return Err(RecordingError::EventUnread(cause.clone()));
            },
            Line::Unparsed(cause) => {
                proof {
                    lemma_fault_stays(rest, i as int);
                }
                return Err(RecordingError::EventUnparsed(cause.clone()));
            },
            Line::Parsed(entry) => {
                let ghost before = events@;
                events.push(copy_entry(entry));
                assert(entries(events@) =~= entries(before).push(entry@));
            },
        }
        i += 1;
    }
    assert(rest.take(i - 1) =~= rest);
    Ok(Recording { cols, rows, cell_width, cell_height, events })
}

/// A copy of an entry.
pub fn copy_entry(entry: &Entry) -> (copy: Entry)
    ensures
        copy@ == entry@,
{
    match entry {
        Entry::Header { version, cols, rows, cell_width, cell_height } => Entry::Header {
            version: *version,
            cols: *cols,
            rows: *rows,
            cell_width: *cell_width,
            cell_height: *cell_height,
        },
        Entry::Output { at_ms, bytes } => Entry::Output {
            at_ms: *at_ms,
            bytes: copy_bytes(bytes.as_slice()),
        },
        Entry::Input { at_ms, origin, bytes } => Entry::Input {
            at_ms: *at_ms,
            origin: *origin,
            bytes: copy_bytes(bytes.as_slice()),
        },
        Entry::Resize { at_ms, cols, rows } => Entry::Resize {
            at_ms: *at_ms,
            cols: *cols,
            rows: *rows,
        },
    }
}

/// The lines of a file that holds some entries.
pub open spec fn written_lines(log: Seq<EntryView>) -> Seq<LineView> {
    log.map_values(|entry: EntryView| LineView::Parsed(entry))
}

proof fn lemma_written_events(log: Seq<EntryView>)
    ensures
        line_events(written_lines(log)) == Ok::<Seq<EntryView>, RecordingFault>(log),
    decreases log.len(),
{
    if log.len() == 0 {
        assert(written_lines(log) =~= Seq::<LineView>::empty());
        assert(log =~= Seq::<EntryView>::empty());
    } else {
        lemma_written_events(log.drop_last());
        assert(written_lines(log).drop_last() =~= written_lines(log.drop_last()));
        assert(log.drop_last().push(log.last()) =~= log);
    }
}

/// Reading gives back what was written: a file that holds the header and then
/// any entries reads as a recording of the header's geometry with exactly those
/// entries, in their order, with their times, origins and bytes.
pub proof fn law_reading_gives_back_what_was_written(
    cols: u16,
    rows: u16,
    cell_width: u16,
    cell_height: u16,
    events: Seq<EntryView>,
)
    ensures
        ({
            let header = EntryView::Header {
                version: RECORDING_VERSION,
                cols,
                rows,
                cell_width,
                cell_height,
            };
            read_lines(written_lines(seq![header] + events)) == Ok::<RecordingView, RecordingFault>(
                RecordingView { cols, rows, cell_width, cell_height, events },
            )
        }),
{
    let header = EntryView::Header {
        version: RECORDING_VERSION,
        cols,
        rows,
        cell_width,
        cell_height,
    };
    let log = seq![header] + events;
    lemma_written_events(events);
    assert(written_lines(log).drop_first() =~= written_lines(events));
}

/// Every entry is made once and never changed: one more entry stands behind all
/// that were made before. Input is stamped with the time since the session
/// started, and keeps its origin and its bytes.
pub proof fn law_entries_are_made_one_after_the_other(
    writer: WriterView,
    entry: EntryView,
    now_ms: u64,
    origin: InputOrigin,
    bytes: Seq<u8>,
)
    ensures
        writer.after(entry).log.len() == writer.log.len() + 1,
        writer.after(entry).log.last() == entry,
        forall|i: int|
            0 <= i < writer.log.len() ==> #[trigger] writer.after(entry).log[i] == writer.log[i],
        writer.after(entry).started_ms == writer.started_ms,
        now_ms >= writer.started_ms ==> writer.input(now_ms, origin, bytes) == (EntryView::Input {
            at_ms: (now_ms - writer.started_ms) as u64,
            origin,
            bytes,
        }),
        now_ms < writer.started_ms ==> writer.input(now_ms, origin, bytes) == (EntryView::Input {
            at_ms: 0,
            origin,
            bytes,
        }),
{
}

/// A file is read as a recording exactly where its first line is a header of the
/// known version and every other line is an entry; it then has the size of the
/// header and those entries, in their order.
pub proof fn law_what_is_read_as_a_recording(lines: Seq<LineView>)
    ensures
        read_lines(lines) is Ok <==> {
            &&& lines.len() > 0
            &&& lines[0] is Parsed && lines[0]->Parsed_0 is Header
                && lines[0]->Parsed_0->Header_version == 1
            &&& forall|i: int| 1 <= i < lines.len() ==> (#[trigger] lines[i]) is Parsed
        },
        read_lines(lines) matches Ok(recording) ==> {
            &&& recording.cols == lines[0]->Parsed_0->Header_cols
            &&& recording.rows == lines[0]->Parsed_0->Header_rows
            &&& recording.cell_width == lines[0]->Parsed_0->Header_cell_width
            &&& recording.cell_height == lines[0]->Parsed_0->Header_cell_height
            &&& recording.events.len() == lines.len() - 1
            &&& forall|i: int|
                1 <= i < lines.len() ==> (#[trigger] lines[i]) == LineView::Parsed(
                    recording.events[i - 1],
                )
        },
{
    if lines.len() > 0 {
        let rest = lines.drop_first();
        lemma_line_events(rest);
        if forall|i: int| 1 <= i < lines.len() ==> (#[trigger] lines[i]) is Parsed {
            assert forall|i: int| 0 <= i < rest.len() implies (#[trigger] rest[i]) is Parsed by {
                assert(rest[i] == lines[i + 1]);
            }
        }
        if line_events(rest) is Ok {
            assert forall|i: int| 1 <= i < lines.len() implies (#[trigger] lines[i])
                == LineView::Parsed(line_events(rest)->Ok_0[i - 1]) by {
                assert(rest[i - 1] == lines[i]);
            }
        }
    }
}

proof fn lemma_line_events(lines: Seq<LineView>)
    ensures
        line_events(lines) is Ok <==> forall|i: int|
            0 <= i < lines.len() ==> (#[trigger] lines[i]) is Parsed,
        line_events(lines) matches Ok(events) ==> events.len() == lines.len() && forall|i: int|
            0 <= i < lines.len() ==> (#[trigger] lines[i]) == LineView::Parsed(events[i]),
    decreases lines.len(),
{
    if lines.len() > 0 {
        let before = lines.drop_last();
        lemma_line_events(before);
        if forall|i: int| 0 <= i < lines.len() ==> (#[trigger] lines[i]) is Parsed {
            assert forall|i: int| 0 <= i < before.len() implies (#[trigger] before[i]) is Parsed by {
                assert(before[i] == lines[i]);
            }
        }
        if line_events(lines) is Ok {
            assert forall|i: int| 0 <= i < lines.len() implies (#[trigger] lines[i])
                == LineView::Parsed(line_events(lines)->Ok_0[i]) by {
                if i < before.len() {
                    assert(before[i] == lines[i]);
                }
            }
        }
    }
}

/// What keeps a file from being read is told: that it is empty, what is wrong with
/// its first line, or, behind a good header, what is wrong with the first bad line.
pub proof fn law_first_bad_line_is_told(
    header: LineView,
    good: Seq<EntryView>,
    bad: LineView,
    rest: Seq<LineView>,
)
    ensures
        read_lines(Seq::empty()) == Err::<RecordingView, RecordingFault>(RecordingFault::Empty),
        match header {
            LineView::Unread(cause) => read_lines(seq![header] + rest) == Err::<
                RecordingView,
                RecordingFault,
            >(RecordingFault::HeaderUnread(cause)),
            LineView::Unparsed(cause) => read_lines(seq![header] + rest) == Err::<
                RecordingView,
                RecordingFault,
            >(RecordingFault::HeaderUnparsed(cause)),
            LineView::Parsed(entry) => {
                let lines = seq![header] + written_lines(good) + seq![bad] + rest;
                &&& !(entry is Header) ==> read_lines(seq![header] + rest) == Err::<
                    RecordingView,
                    RecordingFault,
                >(RecordingFault::NoHeader)
                &&& entry is Header && entry->Header_version != 1 ==> read_lines(
                    seq![header] + rest,
                ) == Err::<RecordingView, RecordingFault>(
                    RecordingFault::Version(entry->Header_version),
                )
                &&& entry is Header && entry->Header_version == 1 ==> match bad {
                    LineView::Unread(cause) => read_lines(lines) == Err::<
                        RecordingView,
                        RecordingFault,
                    >(RecordingFault::EventUnread(cause)),
                    LineView::Unparsed(cause) => read_lines(lines) == Err::<
                        RecordingView,
                        RecordingFault,
                    >(RecordingFault::EventUnparsed(cause)),
                    _ => true,
                }
            },
        },
{
    assert((seq![header] + rest).first() == header);
    let lines = seq![header] + written_lines(good) + seq![bad] + rest;
    assert(lines.first() == header);
    let events = lines.drop_first();
    assert(events =~= written_lines(good) + seq![bad] + rest);
    let n = good.len() as int;
    lemma_written_events(good);
    assert(events.take(n + 1).drop_last() =~= written_lines(good));
    assert(events.take(n + 1).last() == bad);
    if line_events(events.take(n + 1)) is Err {
        lemma_fault_stays(events, n + 1);
    }
}

/// The values of entries and lines keep every one of them, in its place.
pub proof fn law_entry_values_are_complete(list: Seq<Entry>, lines: Seq<Line>, i: int)
    ensures
        entries(list).len() == list.len(),
        0 <= i < list.len() ==> entries(list)[i] == list[i]@,
        line_views(lines).len() == lines.len(),
        0 <= i < lines.len() ==> line_views(lines)[i] == lines[i]@,
{
}

/// What a user is told of a recording holds all of what it is about.
pub proof fn law_messages_are_complete(cause: Seq<char>, version: u8)
    ensures
        RecordingFault::HeaderUnread(cause).told() == "read recording header: "@ + cause,
        RecordingFault::HeaderUnparsed(cause).told() == "parse recording header: "@ + cause,
        RecordingFault::Version(version).told() == "unsupported recording version "@ + decimal(
            version as nat,
        ),
        RecordingFault::EventUnread(cause).told() == "read recording event: "@ + cause,
        RecordingFault::EventUnparsed(cause).told() == "parse recording event: "@ + cause,
{
}

/// The value of a recording, of an entry and of a line hold everything that those
/// do.
pub proof fn law_recording_values_are_complete(recording: Recording, entry: Entry, line: Line)
    ensures
        recording@.cols == recording.cols && recording@.rows == recording.rows,
        recording@.cell_width == recording.cell_width,
        recording@.cell_height == recording.cell_height,
        recording@.events.len() == recording.events@.len(),
        forall|i: int|
            0 <= i < recording.events@.len() ==> #[trigger] recording@.events[i]
                == recording.events@[i]@,
        match entry {
            Entry::Header { version, cols, rows, cell_width, cell_height } => entry@ == (
            EntryView::Header { version, cols, rows, cell_width, cell_height }),
            Entry::Output { at_ms, bytes } => entry@ == (EntryView::Output { at_ms, bytes: bytes@ }),
            Entry::Input { at_ms, origin, bytes } => entry@ == (EntryView::Input {
                at_ms,
                origin,
                bytes: bytes@,
            }),
            Entry::Resize { at_ms, cols, rows } => entry@ == (EntryView::Resize {
                at_ms,
                cols,
                rows,
            }),
        },
        match line {
            Line::Unread(cause) => line@ == LineView::Unread(cause@),
            Line::Unparsed(cause) => line@ == LineView::Unparsed(cause@),
            Line::Parsed(entry) => line@ == LineView::Parsed(entry@),
        },
{
}

/// A recording is its owner's alone: nobody else may read or write it.
pub proof fn law_recordings_are_private()
    ensures
        RECORDING_MODE == 6 * 64,
{
}

} // verus!
