//! Which output the terminal emulator takes at the sizes at which it panics on
//! some.
//!
//! The emulator panics where text wraps on a terminal of one row, where a
//! character is wider than the terminal, and where a tab starts with 65528 columns
//! or more to its left: there a subtraction or an addition of its own overflows.
//! A scan follows a stream byte by byte, as far as it moves the cursor from column
//! to column, and so tells which streams these are.

use vstd::prelude::*;
use vstd::utf8::*;
use crate::width::{columns, width};

verus! {

/// How many numbers of a control sequence are kept.
pub const MAX_NUMBERS: u8 = 32;

/// A parameter of a control sequence.
#[derive(Clone, Copy, Debug, PartialEq, Eq)]
pub struct Parameter {
    /// Its number, or the first of several.
    pub number: u16,
    /// There is only one.
    pub alone: bool,
}

/// What a control sequence is marked with.
#[derive(Clone, Copy, Debug, PartialEq, Eq, Structural)]
pub enum Mark {
    Plain,
    /// A question mark.
    Private,
    Other,
}

/// A control sequence that is being read.
#[derive(Clone, Copy, Debug, PartialEq, Eq)]
pub struct Control {
    /// Nothing has been read yet.
    pub fresh: bool,
    pub mark: Mark,
    /// How many numbers are complete.
    pub count: u8,
    /// How many of them belong to the parameter that is being read.
    pub parts: u8,
    /// The first of those.
    pub first: u16,
    /// The number that is being read.
    pub number: u16,
}

/// Where a stream of bytes stands.
#[derive(Clone, Copy, Debug, PartialEq, Eq)]
pub enum Position {
    Text,
    /// Inside a character of several bytes: how many are missing, the least and
    /// the greatest that can come next, and what the others say.
    Letter { left: u8, low: u8, high: u8, code: u32 },
    /// Behind an escape character.
    Escape,
    /// Behind an escape character and intermediate bytes.
    EscapeMore,
    /// In a control sequence.
    Control(Control),
    /// In the intermediate bytes of a control sequence.
    ControlMore(Control),
    /// In a malformed control sequence.
    ControlIgnored,
    /// In a device control string, by its parts.
    Device,
    DeviceParameters,
    DeviceMore,
    DeviceIgnored,
    DeviceData,
    /// In an operating system command.
    Command,
    /// In a string that is skipped.
    Note,
}

impl Control {
    /// The counts are right.
    pub open spec fn wf(self) -> bool {
        self.parts <= self.count <= MAX_NUMBERS
    }
}

impl Position {
    /// What has been read fits where it is kept.
    pub open spec fn wf(self) -> bool {
        match self {
            Position::Letter { left, low, high, code } => {
                &&& 1 <= left <= 3
                &&& low >= 0x80
                &&& high <= 0xbf
                &&& left == 3 ==> code < 8
                &&& left >= 2 ==> code < 512
                &&& code < 32768
            },
            Position::Control(control) => control.wf(),
            Position::ControlMore(control) => control.wf(),
            _ => true,
        }
    }
}

/// Where a stream stands, and where the cursor is.
#[derive(Debug, PartialEq, Eq)]
pub struct Scan {
    position: Position,
    /// The complete parameters of the latest control sequence.
    list: Vec<Parameter>,
    /// The alternate screen is shown.
    alternate: bool,
    /// The column of the cursor.
    col: u16,
    /// The column that was saved.
    saved: u16,
    /// The same columns of the screen that is not shown.
    other_col: u16,
    other_saved: u16,
}

/// A scan as a mathematical value.
pub struct ScanView {
    pub position: Position,
    pub list: Seq<Parameter>,
    pub alternate: bool,
    pub col: u16,
    pub saved: u16,
    pub other_col: u16,
    pub other_saved: u16,
}

impl View for Scan {
    type V = ScanView;

    closed spec fn view(&self) -> ScanView {
        ScanView {
            position: self.position,
            list: self.list@,
            alternate: self.alternate,
            col: self.col,
            saved: self.saved,
            other_col: self.other_col,
            other_saved: self.other_saved,
        }
    }
}

/// The scan of an empty stream.
pub open spec fn scan_start() -> ScanView {
    ScanView {
        position: Position::Text,
        list: Seq::empty(),
        alternate: false,
        col: 0,
        saved: 0,
        other_col: 0,
        other_saved: 0,
    }
}

/// The smaller of two columns.
pub open spec fn least(a: int, b: int) -> u16 {
    if a <= b {
        a as u16
    } else {
        b as u16
    }
}

/// A control sequence of which nothing has been read.
pub open spec fn fresh_control() -> Control {
    Control { fresh: true, mark: Mark::Plain, count: 0, parts: 0, first: 0, number: 0 }
}

/// A control sequence with one more mark or intermediate byte: the first counts.
pub open spec fn marked(control: Control, byte: u8) -> Control {
    Control {
        fresh: false,
        mark: if control.mark != Mark::Plain {
            control.mark
        } else if byte == 0x3f {
            Mark::Private
        } else {
            Mark::Other
        },
        ..control
    }
}

/// A control sequence with one more digit.
pub open spec fn with_digit(control: Control, byte: u8) -> Control {
    Control {
        fresh: false,
        number: if control.count < MAX_NUMBERS {
            least(control.number * 10 + (byte - 0x30), 65535)
        } else {
            control.number
        },
        ..control
    }
}

/// The first number of the parameter that is being read.
pub open spec fn leading(control: Control) -> u16 {
    if control.parts == 0 {
        control.number
    } else {
        control.first
    }
}

/// A control sequence behind a colon: more of the same parameter follows.
pub open spec fn with_part(control: Control) -> Control {
    if control.count < MAX_NUMBERS {
        Control {
            fresh: false,
            count: (control.count + 1) as u8,
            parts: (control.parts + 1) as u8,
            first: leading(control),
            number: 0,
            ..control
        }
    } else {
        Control { fresh: false, ..control }
    }
}

/// A control sequence behind a semicolon: another parameter follows.
pub open spec fn with_parameter(control: Control) -> Control {
    if control.count < MAX_NUMBERS {
        Control { fresh: false, count: (control.count + 1) as u8, parts: 0, number: 0, ..control }
    } else {
        Control { fresh: false, ..control }
    }
}

impl ScanView {
    /// The same scan at another place of the stream.
    pub open spec fn at(self, position: Position) -> ScanView {
        ScanView { position, ..self }
    }

    /// The same scan with the cursor in another column.
    pub open spec fn moved(self, col: u16) -> ScanView {
        ScanView { col, ..self }
    }

    /// The scan after a character of some width, where the emulator takes it. A
    /// character that does not fit goes to the next row.
    pub open spec fn printed(self, rows: u16, cols: u16, width: u32) -> Option<ScanView> {
        let wraps = self.col + width > cols;
        if width == 0 {
            Some(self)
        } else if width > cols || (rows == 1 && wraps) {
            None
        } else {
            let from = if wraps { 0 } else { self.col as int };
            Some(self.moved((from + if width > 1 { 2int } else { 1int }) as u16))
        }
    }

    /// The scan after a control character, where the emulator takes it.
    pub open spec fn executed(self, cols: u16, byte: u8) -> Option<ScanView> {
        if byte == 0x08 {
            Some(self.moved(if self.col > 0 { (self.col - 1) as u16 } else { 0 }))
        } else if byte == 0x09 {
            if self.col >= 65528 {
                None
            } else {
                Some(self.moved(least(self.col - self.col % 8 + 8, cols - 1)))
            }
        } else if byte == 0x0d {
            Some(self.moved(0))
        } else {
            Some(self)
        }
    }

    /// The scan after an escape sequence without intermediate bytes.
    pub open spec fn escaped(self, byte: u8) -> ScanView {
        if byte == 0x37 {
            ScanView { saved: self.col, ..self }
        } else if byte == 0x38 {
            self.moved(self.saved)
        } else if byte == 0x63 {
            scan_start()
        } else {
            self
        }
    }

    /// The scan with the other screen shown.
    pub open spec fn turned(self) -> ScanView {
        ScanView {
            alternate: !self.alternate,
            col: self.other_col,
            saved: self.other_saved,
            other_col: self.col,
            other_saved: self.saved,
            ..self
        }
    }

    /// The scan with the main or the alternate screen shown.
    pub open spec fn showing(self, alternate: bool) -> ScanView {
        if self.alternate == alternate {
            self
        } else {
            self.turned()
        }
    }

    /// The scan after a private mode has been set or reset: the origin mode moves
    /// the cursor, and two others switch the screen, one of them with the cursor
    /// saved and a new screen, or the saved cursor restored.
    pub open spec fn switched(self, mode: Parameter, set: bool) -> ScanView {
        if !mode.alone {
            self
        } else if mode.number == 6 {
            self.moved(0)
        } else if mode.number == 47 {
            self.showing(set)
        } else if mode.number == 1049 && set {
            let kept = ScanView { saved: self.col, ..self };
            ScanView { col: 0, saved: 0, ..kept.showing(true) }
        } else if mode.number == 1049 {
            let main = self.showing(false);
            main.moved(main.saved)
        } else {
            self
        }
    }

    /// The scan after some private modes have been set or reset, one by one.
    pub open spec fn all_switched(self, modes: Seq<Parameter>, set: bool) -> ScanView
        decreases modes.len(),
    {
        if modes.len() == 0 {
            self
        } else {
            self.all_switched(modes.drop_last(), set).switched(modes.last(), set)
        }
    }

    /// The scan with the parameter complete that is being read, where there is
    /// room for it.
    pub open spec fn listed(self, control: Control) -> ScanView {
        if control.count < MAX_NUMBERS {
            let parameter = Parameter { number: leading(control), alone: control.parts == 0 };
            ScanView { list: self.list.push(parameter), ..self }
        } else {
            self
        }
    }

    /// The scan with the last parameter complete. Where there was no room for its
    /// last number, it has those that were read before.
    pub open spec fn complete(self, control: Control) -> ScanView {
        if control.count < MAX_NUMBERS || control.parts == 0 {
            self.listed(control)
        } else {
            let parameter = Parameter { number: control.first, alone: control.parts == 1 };
            ScanView { list: self.list.push(parameter), ..self }
        }
    }

    /// A number of a control sequence; one where it is missing or nothing.
    pub open spec fn parameter(self, i: int) -> int {
        if i < self.list.len() && self.list[i].number > 0 {
            self.list[i].number as int
        } else {
            1
        }
    }

    /// The scan after a control sequence.
    pub open spec fn controlled(self, cols: u16, control: Control, byte: u8) -> ScanView {
        let scan = self.complete(control);
        let count = scan.parameter(0);
        match control.mark {
            Mark::Other => scan,
            Mark::Private => if byte == 0x68 || byte == 0x6c {
                scan.all_switched(scan.list, byte == 0x68)
            } else {
                scan
            },
            Mark::Plain => if byte == 0x43 {
                scan.moved(least(scan.col + count, cols - 1))
            } else if byte == 0x44 {
                scan.moved(if scan.col > count { (scan.col - count) as u16 } else { 0 })
            } else if byte == 0x45 || byte == 0x46 || byte == 0x72 {
                scan.moved(0)
            } else if byte == 0x47 {
                scan.moved(least(count - 1, cols - 1))
            } else if byte == 0x48 {
                scan.moved(least(scan.parameter(1) - 1, cols - 1))
            } else {
                scan
            },
        }
    }

    /// The scan behind the first byte of a character of several bytes.
    pub open spec fn begun(self, left: u8, low: u8, high: u8, code: int) -> ScanView {
        self.at(Position::Letter { left, low, high, code: code as u32 })
    }

    /// The scan after one byte in text. A byte that no character starts with shows
    /// nothing.
    pub open spec fn text_byte(self, rows: u16, cols: u16, byte: u8) -> Option<ScanView> {
        let scan = self.at(Position::Text);
        if byte == 0x1b {
            Some(scan.at(Position::Escape))
        } else if byte < 0x20 {
            scan.executed(cols, byte)
        } else if byte <= 0x7e {
            scan.printed(rows, cols, 1)
        } else if 0xc2 <= byte <= 0xdf {
            Some(scan.begun(1, 0x80, 0xbf, byte - 0xc0))
        } else if 0xe0 <= byte <= 0xef {
            let low = if byte == 0xe0 { 0xa0u8 } else { 0x80u8 };
            let high = if byte == 0xed { 0x9fu8 } else { 0xbfu8 };
            Some(scan.begun(2, low, high, byte - 0xe0))
        } else if 0xf0 <= byte <= 0xf4 {
            let low = if byte == 0xf0 { 0x90u8 } else { 0x80u8 };
            let high = if byte == 0xf4 { 0x8fu8 } else { 0xbfu8 };
            Some(scan.begun(3, low, high, byte - 0xf0))
        } else {
            Some(scan)
        }
    }

    /// The scan after one byte inside a character of several bytes. A character
    /// that is broken off shows nothing, and neither do U+0080 to U+009F and
    /// U+FFFD.
    pub open spec fn letter_byte(
        self,
        rows: u16,
        cols: u16,
        left: u8,
        low: u8,
        high: u8,
        code: u32,
        byte: u8,
    ) -> Option<ScanView> {
        let whole = (code * 64 + (byte - 0x80)) as u32;
        if !(low <= byte <= high) {
            self.text_byte(rows, cols, byte)
        } else if left > 1 {
            Some(self.begun((left - 1) as u8, 0x80, 0xbf, whole as int))
        } else if whole < 0xa0 || whole == 0xfffd {
            Some(self.at(Position::Text))
        } else {
            self.at(Position::Text).printed(rows, cols, columns(whole))
        }
    }

    /// The scan after one byte behind an escape character.
    pub open spec fn escape_byte(self, cols: u16, byte: u8) -> Option<ScanView> {
        if byte == 0x18 || byte == 0x1a {
            Some(self.at(Position::Text))
        } else if byte < 0x20 {
            self.executed(cols, byte)
        } else if byte <= 0x2f {
            Some(self.at(Position::EscapeMore))
        } else if byte == 0x50 {
            Some(self.at(Position::Device))
        } else if byte == 0x58 || byte == 0x5e || byte == 0x5f {
            Some(self.at(Position::Note))
        } else if byte == 0x5b {
            Some(
                ScanView {
                    position: Position::Control(fresh_control()),
                    list: Seq::empty(),
                    ..self
                },
            )
        } else if byte == 0x5d {
            Some(self.at(Position::Command))
        } else if byte <= 0x7e {
            Some(self.escaped(byte).at(Position::Text))
        } else {
            Some(self)
        }
    }

    /// The scan after one byte behind the intermediate bytes of an escape
    /// sequence.
    pub open spec fn escape_more_byte(self, cols: u16, byte: u8) -> Option<ScanView> {
        if byte == 0x18 || byte == 0x1a {
            Some(self.at(Position::Text))
        } else if byte == 0x1b {
            Some(self.at(Position::Escape))
        } else if byte < 0x20 {
            self.executed(cols, byte)
        } else if 0x30 <= byte <= 0x7e {
            Some(self.at(Position::Text))
        } else {
            Some(self)
        }
    }

    /// The scan after one byte of a control sequence.
    pub open spec fn control_byte(self, cols: u16, control: Control, byte: u8) -> Option<ScanView> {
        if byte == 0x18 || byte == 0x1a {
            Some(self.at(Position::Text))
        } else if byte == 0x1b {
            Some(self.at(Position::Escape))
        } else if byte < 0x20 {
            self.executed(cols, byte)
        } else if byte <= 0x2f {
            Some(self.at(Position::ControlMore(marked(control, byte))))
        } else if byte <= 0x39 {
            Some(self.at(Position::Control(with_digit(control, byte))))
        } else if byte == 0x3a {
            Some(self.at(Position::Control(with_part(control))))
        } else if byte == 0x3b {
            Some(self.listed(control).at(Position::Control(with_parameter(control))))
        } else if byte <= 0x3f {
            if control.fresh {
                Some(self.at(Position::Control(marked(control, byte))))
            } else {
                Some(self.at(Position::ControlIgnored))
            }
        } else if byte <= 0x7e {
            Some(self.controlled(cols, control, byte).at(Position::Text))
        } else {
            Some(self)
        }
    }

    /// The scan after one byte behind the intermediate bytes of a control
    /// sequence.
    pub open spec fn control_more_byte(self, cols: u16, control: Control, byte: u8) -> Option<ScanView> {
        if byte == 0x18 || byte == 0x1a {
            Some(self.at(Position::Text))
        } else if byte == 0x1b {
            Some(self.at(Position::Escape))
        } else if byte < 0x20 {
            self.executed(cols, byte)
        } else if 0x30 <= byte <= 0x3f {
            Some(self.at(Position::ControlIgnored))
        } else if 0x40 <= byte <= 0x7e {
            Some(self.controlled(cols, control, byte).at(Position::Text))
        } else {
            Some(self)
        }
    }

    /// The scan after one byte of a malformed control sequence.
    pub open spec fn control_ignored_byte(self, cols: u16, byte: u8) -> Option<ScanView> {
        if byte == 0x18 || byte == 0x1a || 0x40 <= byte <= 0x7e {
            Some(self.at(Position::Text))
        } else if byte == 0x1b {
            Some(self.at(Position::Escape))
        } else if byte < 0x20 {
            self.executed(cols, byte)
        } else {
            Some(self)
        }
    }

    /// Where a string that is not shown goes on after one byte.
    pub open spec fn string_byte(self, byte: u8) -> ScanView {
        let next = if byte == 0x18 || byte == 0x1a {
            Position::Text
        } else if byte == 0x1b {
            Position::Escape
        } else {
            match self.position {
                Position::Device => if 0x20 <= byte <= 0x2f {
                    Position::DeviceMore
                } else if 0x30 <= byte <= 0x3f {
                    Position::DeviceParameters
                } else if 0x40 <= byte <= 0x7e {
                    Position::DeviceData
                } else {
                    Position::Device
                },
                Position::DeviceParameters => if 0x20 <= byte <= 0x2f {
                    Position::DeviceMore
                } else if 0x3c <= byte <= 0x3f {
                    Position::DeviceIgnored
                } else if 0x40 <= byte <= 0x7e {
                    Position::DeviceData
                } else {
                    Position::DeviceParameters
                },
                Position::DeviceMore => if 0x30 <= byte <= 0x3f {
                    Position::DeviceIgnored
                } else if 0x40 <= byte <= 0x7e {
                    Position::DeviceData
                } else {
                    Position::DeviceMore
                },
                Position::DeviceData => if byte == 0x9c {
                    Position::Text
                } else {
                    Position::DeviceData
                },
                Position::Command => if byte == 0x07 {
                    Position::Text
                } else {
                    Position::Command
                },
                position => position,
            }
        };
        self.at(next)
    }

    /// The scan after one byte, where the emulator takes it.
    pub open spec fn byte(self, rows: u16, cols: u16, byte: u8) -> Option<ScanView> {
        match self.position {
            Position::Text => self.text_byte(rows, cols, byte),
            Position::Letter { left, low, high, code } => self.letter_byte(
                rows,
                cols,
                left,
                low,
                high,
                code,
                byte,
            ),
            Position::Escape => self.escape_byte(cols, byte),
            Position::EscapeMore => self.escape_more_byte(cols, byte),
            Position::Control(control) => self.control_byte(cols, control, byte),
            Position::ControlMore(control) => self.control_more_byte(cols, control, byte),
            Position::ControlIgnored => self.control_ignored_byte(cols, byte),
            _ => Some(self.string_byte(byte)),
        }
    }

    /// The scan after some bytes, as long as the emulator takes them.
    pub open spec fn bytes(self, rows: u16, cols: u16, bytes: Seq<u8>) -> Option<ScanView>
        decreases bytes.len(),
    {
        if bytes.len() == 0 {
            Some(self)
        } else {
            match self.bytes(rows, cols, bytes.drop_last()) {
                Some(scan) => scan.byte(rows, cols, bytes.last()),
                None => None,
            }
        }
    }

    /// Whether the emulator loses the second byte of a chunk: it does where a
    /// character of two bytes was cut by the end of the chunk before, and its rest
    /// is followed by one ASCII byte and a byte that is not ASCII.
    pub open spec fn swallows(self, chunk: Seq<u8>) -> bool {
        &&& self.position matches Position::Letter { left, low, high, code }
        &&& left == 1
        &&& code < 0x20
        &&& chunk.len() > 2
        &&& low <= chunk[0] <= high
        &&& chunk[1] < 0x80
        &&& chunk[2] >= 0x80
    }

    /// What the emulator reads of a chunk.
    pub open spec fn kept(self, chunk: Seq<u8>) -> Seq<u8> {
        if self.swallows(chunk) {
            chunk.remove(1)
        } else {
            chunk
        }
    }

    /// The scan after one more chunk, as long as the emulator takes it.
    pub open spec fn chunk(self, rows: u16, cols: u16, chunk: Seq<u8>) -> Option<ScanView> {
        self.bytes(rows, cols, self.kept(chunk))
    }
}

/// Sizes at which the emulator takes every stream of bytes: text has a next row,
/// every character fits, and no tab starts too far to the right.
pub open spec fn roomy(rows: u16, cols: u16) -> bool {
    rows >= 2 && 3 <= cols <= 65527
}

/// The scan after some chunks, as long as the emulator takes them.
pub open spec fn scanned(rows: u16, cols: u16, chunks: Seq<Seq<u8>>) -> Option<ScanView>
    decreases chunks.len(),
{
    if chunks.len() == 0 {
        Some(scan_start())
    } else {
        match scanned(rows, cols, chunks.drop_last()) {
            Some(scan) => scan.chunk(rows, cols, chunks.last()),
            None => None,
        }
    }
}

// --------------------------------------------------------------- execution

fn smaller(a: u32, b: u16) -> (least_of: u16)
    ensures
        least_of == least(a as int, b as int),
{
    if a <= b as u32 {
        a as u16
    } else {
        b
    }
}

fn mark_control(control: Control, byte: u8) -> (next: Control)
    ensures
        next == marked(control, byte),
{
    let mark = if control.mark != Mark::Plain {
        control.mark
    } else if byte == 0x3f {
        Mark::Private
    } else {
        Mark::Other
    };
    Control { fresh: false, mark, ..control }
}

fn add_digit(control: Control, byte: u8) -> (next: Control)
    requires
        0x30 <= byte <= 0x39,
    ensures
        next == with_digit(control, byte),
{
    let number: u16 = if control.count < MAX_NUMBERS {
        smaller(control.number as u32 * 10 + (byte - 0x30) as u32, 65535)
    } else {
        control.number
    };
    Control { fresh: false, number, ..control }
}

fn leading_number(control: Control) -> (number: u16)
    ensures
        number == leading(control),
{
    if control.parts == 0 {
        control.number
    } else {
        control.first
    }
}

fn add_part(control: Control) -> (next: Control)
    requires
        control.wf(),
    ensures
        next == with_part(control),
        next.wf(),
{
    if control.count < MAX_NUMBERS {
        Control {
            fresh: false,
            count: control.count + 1,
            parts: control.parts + 1,
            first: leading_number(control),
            number: 0,
            ..control
        }
    } else {
        Control { fresh: false, ..control }
    }
}

fn add_parameter(control: Control) -> (next: Control)
    requires
        control.wf(),
    ensures
        next == with_parameter(control),
        next.wf(),
{
    if control.count < MAX_NUMBERS {
        Control { fresh: false, count: control.count + 1, parts: 0, number: 0, ..control }
    } else {
        Control { fresh: false, ..control }
    }
}

/// The scan of an empty stream.
pub fn start() -> (scan: Scan)
    ensures
        scan@ == scan_start(),
        scan.wf(),
{
    let scan = Scan {
        position: Position::Text,
        list: Vec::new(),
        alternate: false,
        col: 0,
        saved: 0,
        other_col: 0,
        other_saved: 0,
    };
    assert(scan@.list =~= scan_start().list);
    scan
}

/// Whether a step of a scan was right: it gave the next scan, or told that there
/// is none.
pub open spec fn stepped(next: Option<ScanView>, taken: bool, now: ScanView) -> bool {
    match next {
        Some(next) => taken && now == next,
        None => !taken,
    }
}

impl Scan {
    /// What has been read fits where it is kept.
    pub open spec fn wf(self) -> bool {
        self@.position.wf()
    }

    /// Another scan that stands at the same place.
    pub fn duplicate(&self) -> (scan: Scan)
        ensures
            scan@ == self@,
    {
        let mut list: Vec<Parameter> = Vec::new();
        let mut i: usize = 0;
        while i < self.list.len()
            invariant
                i <= self.list@.len(),
                list@ == self.list@.take(i as int),
            decreases self.list@.len() - i,
        {
            list.push(self.list[i]);
            i += 1;
        }
        assert(list@ =~= self.list@);
        Scan {
            position: self.position,
            list,
            alternate: self.alternate,
            col: self.col,
            saved: self.saved,
            other_col: self.other_col,
            other_saved: self.other_saved,
        }
    }

    fn print(&mut self, rows: u16, cols: u16, width: u32) -> (taken: bool)
        requires
            width <= 3,
        ensures
            stepped(old(self)@.printed(rows, cols, width), taken, final(self)@),
            final(self)@.position == old(self)@.position,
    {
        if width == 0 {
            return true;
        }
        let wraps = self.col as u32 + width > cols as u32;
        if width > cols as u32 || (rows == 1 && wraps) {
            return false;
        }
        let from: u16 = if wraps {
            0
        } else {
            self.col
        };
        self.col = from + if width > 1 {
            2
        } else {
            1
        };
        true
    }

    fn execute(&mut self, cols: u16, byte: u8) -> (taken: bool)
        requires
            cols > 0,
        ensures
            stepped(old(self)@.executed(cols, byte), taken, final(self)@),
            final(self)@.position == old(self)@.position,
    {
        if byte == 0x08 {
            self.col = if self.col > 0 {
                self.col - 1
            } else {
                0
            };
        } else if byte == 0x09 {
            if self.col >= 65528 {
                return false;
            }
            self.col = smaller((self.col - self.col % 8) as u32 + 8, cols - 1);
        } else if byte == 0x0d {
            self.col = 0;
        }
        true
    }

    fn escape(&mut self, byte: u8)
        ensures
            final(self)@ == old(self)@.escaped(byte),
    {
        if byte == 0x37 {
            self.saved = self.col;
        } else if byte == 0x38 {
            self.col = self.saved;
        } else if byte == 0x63 {
            *self = start();
        }
    }

    fn show(&mut self, alternate: bool)
        ensures
            final(self)@ == old(self)@.showing(alternate),
    {
        if self.alternate != alternate {
            let col: u16 = self.col;
            let saved: u16 = self.saved;
            self.alternate = alternate;
            self.col = self.other_col;
            self.saved = self.other_saved;
            self.other_col = col;
            self.other_saved = saved;
        }
    }

    fn switch(&mut self, mode: Parameter, set: bool)
        ensures
            final(self)@ == old(self)@.switched(mode, set),
    {
        if !mode.alone {
            return;
        }
        if mode.number == 6 {
            self.col = 0;
        } else if mode.number == 47 {
            self.show(set);
        } else if mode.number == 1049 && set {
            self.saved = self.col;
            self.show(true);
            self.col = 0;
            self.saved = 0;
        } else if mode.number == 1049 {
            self.show(false);
            self.col = self.saved;
        }
    }

    fn switch_all(&mut self, set: bool)
        ensures
            final(self)@ == old(self)@.all_switched(old(self)@.list, set),
    {
        let ghost first = self@;
        let mut i: usize = 0;
        assert(first.list.take(0) =~= Seq::<Parameter>::empty());
        while i < self.list.len()
            invariant
                i <= first.list.len(),
                self.list@ == first.list,
                self@ == first.all_switched(first.list.take(i as int), set),
            decreases first.list.len() - i,
        {
            assert(first.list.take(i + 1).drop_last() =~= first.list.take(i as int));
            let mode: Parameter = self.list[i];
            self.switch(mode, set);
            i += 1;
        }
        assert(first.list.take(i as int) =~= first.list);
    }

    fn enlist(&mut self, control: Control)
        ensures
            final(self)@ == old(self)@.listed(control),
    {
        if control.count < MAX_NUMBERS {
            self.list.push(
                Parameter { number: leading_number(control), alone: control.parts == 0 },
            );
        }
    }

    fn end(&mut self, control: Control)
        ensures
            final(self)@ == old(self)@.complete(control),
    {
        if control.count < MAX_NUMBERS || control.parts == 0 {
            self.enlist(control);
        } else {
            self.list.push(Parameter { number: control.first, alone: control.parts == 1 });
        }
    }

    fn number(&self, i: usize) -> (number: u32)
        ensures
            number == self@.parameter(i as int),
            1 <= number <= 65535,
    {
        if i < self.list.len() && self.list[i].number > 0 {
            self.list[i].number as u32
        } else {
            1
        }
    }

    fn control(&mut self, cols: u16, control: Control, byte: u8)
        requires
            cols > 0,
        ensures
            final(self)@ == old(self)@.controlled(cols, control, byte),
    {
        self.end(control);
        let count: u32 = self.number(0);
        let col: u32 = self.col as u32;
        match control.mark {
            Mark::Other => {},
            Mark::Private => {
                if byte == 0x68 || byte == 0x6c {
                    self.switch_all(byte == 0x68);
                }
            },
            Mark::Plain => {
                if byte == 0x43 {
                    self.col = smaller(col + count, cols - 1);
                } else if byte == 0x44 {
                    self.col = if col > count {
                        (col - count) as u16
                    } else {
                        0
                    };
                } else if byte == 0x45 || byte == 0x46 || byte == 0x72 {
                    self.col = 0;
                } else if byte == 0x47 {
                    self.col = smaller(count - 1, cols - 1);
                } else if byte == 0x48 {
                    self.col = smaller(self.number(1) - 1, cols - 1);
                }
            },
        }
    }

    fn text(&mut self, rows: u16, cols: u16, byte: u8) -> (taken: bool)
        requires
            cols > 0,
        ensures
            stepped(old(self)@.text_byte(rows, cols, byte), taken, final(self)@),
            final(self).wf(),
    {
        self.position = Position::Text;
        if byte == 0x1b {
            self.position = Position::Escape;
        } else if byte < 0x20 {
            return self.execute(cols, byte);
        } else if byte <= 0x7e {
            return self.print(rows, cols, 1);
        } else if 0xc2 <= byte && byte <= 0xdf {
            self.position =
            Position::Letter { left: 1, low: 0x80, high: 0xbf, code: (byte - 0xc0) as u32 };
        } else if 0xe0 <= byte && byte <= 0xef {
            let low: u8 = if byte == 0xe0 {
                0xa0
            } else {
                0x80
            };
            let high: u8 = if byte == 0xed {
                0x9f
            } else {
                0xbf
            };
            self.position = Position::Letter { left: 2, low, high, code: (byte - 0xe0) as u32 };
        } else if 0xf0 <= byte && byte <= 0xf4 {
            let low: u8 = if byte == 0xf0 {
                0x90
            } else {
                0x80
            };
            let high: u8 = if byte == 0xf4 {
                0x8f
            } else {
                0xbf
            };
            self.position = Position::Letter { left: 3, low, high, code: (byte - 0xf0) as u32 };
        }
        true
    }

    fn letter(
        &mut self,
        rows: u16,
        cols: u16,
        left: u8,
        low: u8,
        high: u8,
        code: u32,
        byte: u8,
    ) -> (taken: bool)
        requires
            cols > 0,
            (Position::Letter { left, low, high, code }).wf(),
        ensures
            stepped(
                old(self)@.letter_byte(rows, cols, left, low, high, code, byte),
                taken,
                final(self)@,
            ),
            final(self).wf(),
    {
        if byte < low || byte > high {
            return self.text(rows, cols, byte);
        }
        let whole: u32 = code * 64 + (byte - 0x80) as u32;
        if left > 1 {
            self.position =
            Position::Letter { left: left - 1, low: 0x80, high: 0xbf, code: whole };
            return true;
        }
        self.position = Position::Text;
        if whole < 0xa0 || whole == 0xfffd {
            true
        } else {
            self.print(rows, cols, width(whole))
        }
    }

    fn after_escape(&mut self, cols: u16, byte: u8) -> (taken: bool)
        requires
            cols > 0,
            old(self).wf(),
        ensures
            stepped(old(self)@.escape_byte(cols, byte), taken, final(self)@),
            final(self).wf(),
    {
        if byte == 0x18 || byte == 0x1a {
            self.position = Position::Text;
        } else if byte < 0x20 {
            return self.execute(cols, byte);
        } else if byte <= 0x2f {
            self.position = Position::EscapeMore;
        } else if byte == 0x50 {
            self.position = Position::Device;
        } else if byte == 0x58 || byte == 0x5e || byte == 0x5f {
            self.position = Position::Note;
        } else if byte == 0x5b {
            self.position =
            Position::Control(
                Control {
                    fresh: true,
                    mark: Mark::Plain,
                    count: 0,
                    parts: 0,
                    first: 0,
                    number: 0,
                },
            );
            self.list = Vec::new();
            assert(self@.list =~= Seq::<Parameter>::empty());
        } else if byte == 0x5d {
            self.position = Position::Command;
        } else if byte <= 0x7e {
            self.escape(byte);
            self.position = Position::Text;
        }
        true
    }

    fn in_escape_more(&mut self, cols: u16, byte: u8) -> (taken: bool)
        requires
            cols > 0,
            old(self).wf(),
        ensures
            stepped(old(self)@.escape_more_byte(cols, byte), taken, final(self)@),
            final(self).wf(),
    {
        if byte == 0x18 || byte == 0x1a {
            self.position = Position::Text;
        } else if byte == 0x1b {
            self.position = Position::Escape;
        } else if byte < 0x20 {
            return self.execute(cols, byte);
        } else if 0x30 <= byte && byte <= 0x7e {
            self.position = Position::Text;
        }
        true
    }

    fn in_control(&mut self, cols: u16, control: Control, byte: u8) -> (taken: bool)
        requires
            cols > 0,
            control.wf(),
            old(self).wf(),
        ensures
            stepped(old(self)@.control_byte(cols, control, byte), taken, final(self)@),
            final(self).wf(),
    {
        if byte == 0x18 || byte == 0x1a {
            self.position = Position::Text;
        } else if byte == 0x1b {
            self.position = Position::Escape;
        } else if byte < 0x20 {
            return self.execute(cols, byte);
        } else if byte <= 0x2f {
            self.position = Position::ControlMore(mark_control(control, byte));
        } else if byte <= 0x39 {
            self.position = Position::Control(add_digit(control, byte));
        } else if byte == 0x3a {
            self.position = Position::Control(add_part(control));
        } else if byte == 0x3b {
            self.enlist(control);
            self.position = Position::Control(add_parameter(control));
        } else if byte <= 0x3f {
            self.position = if control.fresh {
                Position::Control(mark_control(control, byte))
            } else {
                Position::ControlIgnored
            };
        } else if byte <= 0x7e {
            self.control(cols, control, byte);
            self.position = Position::Text;
        }
        true
    }

    fn in_control_more(&mut self, cols: u16, control: Control, byte: u8) -> (taken: bool)
        requires
            cols > 0,
            old(self).wf(),
        ensures
            stepped(old(self)@.control_more_byte(cols, control, byte), taken, final(self)@),
            final(self).wf(),
    {
        if byte == 0x18 || byte == 0x1a {
            self.position = Position::Text;
        } else if byte == 0x1b {
            self.position = Position::Escape;
        } else if byte < 0x20 {
            return self.execute(cols, byte);
        } else if 0x30 <= byte && byte <= 0x3f {
            self.position = Position::ControlIgnored;
        } else if 0x40 <= byte && byte <= 0x7e {
            self.control(cols, control, byte);
            self.position = Position::Text;
        }
        true
    }

    fn in_control_ignored(&mut self, cols: u16, byte: u8) -> (taken: bool)
        requires
            cols > 0,
            old(self).wf(),
        ensures
            stepped(old(self)@.control_ignored_byte(cols, byte), taken, final(self)@),
            final(self).wf(),
    {
        if byte == 0x18 || byte == 0x1a || (0x40 <= byte && byte <= 0x7e) {
            self.position = Position::Text;
        } else if byte == 0x1b {
            self.position = Position::Escape;
        } else if byte < 0x20 {
            return self.execute(cols, byte);
        }
        true
    }

    fn in_string(&mut self, byte: u8)
        requires
            old(self).wf(),
        ensures
            final(self)@ == old(self)@.string_byte(byte),
            final(self).wf(),
    {
        self.position = if byte == 0x18 || byte == 0x1a {
            Position::Text
        } else if byte == 0x1b {
            Position::Escape
        } else {
            match self.position {
                Position::Device => if 0x20 <= byte && byte <= 0x2f {
                    Position::DeviceMore
                } else if 0x30 <= byte && byte <= 0x3f {
                    Position::DeviceParameters
                } else if 0x40 <= byte && byte <= 0x7e {
                    Position::DeviceData
                } else {
                    Position::Device
                },
                Position::DeviceParameters => if 0x20 <= byte && byte <= 0x2f {
                    Position::DeviceMore
                } else if 0x3c <= byte && byte <= 0x3f {
                    Position::DeviceIgnored
                } else if 0x40 <= byte && byte <= 0x7e {
                    Position::DeviceData
                } else {
                    Position::DeviceParameters
                },
                Position::DeviceMore => if 0x30 <= byte && byte <= 0x3f {
                    Position::DeviceIgnored
                } else if 0x40 <= byte && byte <= 0x7e {
                    Position::DeviceData
                } else {
                    Position::DeviceMore
                },
                Position::DeviceData => if byte == 0x9c {
                    Position::Text
                } else {
                    Position::DeviceData
                },
                Position::Command => if byte == 0x07 {
                    Position::Text
                } else {
                    Position::Command
                },
                position => position,
            }
        };
    }

    fn step(&mut self, rows: u16, cols: u16, byte: u8) -> (taken: bool)
        requires
            cols > 0,
            old(self).wf(),
        ensures
            stepped(old(self)@.byte(rows, cols, byte), taken, final(self)@),
            final(self).wf(),
    {
        match self.position {
            Position::Text => self.text(rows, cols, byte),
            Position::Letter { left, low, high, code } => self.letter(
                rows,
                cols,
                left,
                low,
                high,
                code,
                byte,
            ),
            Position::Escape => self.after_escape(cols, byte),
            Position::EscapeMore => self.in_escape_more(cols, byte),
            Position::Control(control) => self.in_control(cols, control, byte),
            Position::ControlMore(control) => self.in_control_more(cols, control, byte),
            Position::ControlIgnored => self.in_control_ignored(cols, byte),
            _ => {
                self.in_string(byte);
                true
            },
        }
    }

    fn read(&mut self, rows: u16, cols: u16, bytes: &[u8], from: usize) -> (taken: bool)
        requires
            cols > 0,
            old(self).wf(),
            from <= bytes@.len(),
        ensures
            stepped(old(self)@.bytes(rows, cols, bytes@.skip(from as int)), taken, final(self)@),
            final(self).wf(),
    {
        let ghost first = self@;
        let ghost rest = bytes@.skip(from as int);
        let mut i: usize = from;
        assert(rest.take(0) =~= Seq::<u8>::empty());
        while i < bytes.len()
            invariant
                cols > 0,
                from <= i <= bytes@.len(),
                first == old(self)@,
                rest == bytes@.skip(from as int),
                self.wf(),
                first.bytes(rows, cols, rest.take(i - from)) == Some(self@),
            decreases bytes@.len() - i,
        {
            assert(rest.take(i + 1 - from).drop_last() =~= rest.take(i - from));
            if !self.step(rows, cols, bytes[i]) {
                proof {
                    lemma_refused_stays(first, rows, cols, rest, i + 1 - from);
                }
                return false;
            }
            i += 1;
        }
        assert(rest.take(i - from) =~= rest);
        true
    }

    /// Follows one more chunk, as long as the emulator takes it, and tells whether
    /// it took all of it.
    pub fn follow(&mut self, rows: u16, cols: u16, bytes: &[u8]) -> (taken: bool)
        requires
            cols > 0,
            old(self).wf(),
        ensures
            stepped(old(self)@.chunk(rows, cols, bytes@), taken, final(self)@),
            final(self).wf(),
    {
        if let Position::Letter { left, low, high, code } = self.position {
            if left == 1 && code < 0x20 && bytes.len() > 2 && low <= bytes[0] && bytes[0] <= high
                && bytes[1] < 0x80 && bytes[2] >= 0x80 {
                proof {
                    let rest = bytes@.skip(2);
                    let one = seq![bytes@[0]];
                    assert(bytes@.remove(1) =~= one + rest);
                    lemma_bytes_concat(self@, rows, cols, one, rest);
                    reveal_with_fuel(ScanView::bytes, 2);
                    assert(one.drop_last() =~= Seq::<u8>::empty());
                }
                return self.step(rows, cols, bytes[0]) && self.read(rows, cols, bytes, 2);
            }
        }
        assert(bytes@.skip(0) =~= bytes@);
        self.read(rows, cols, bytes, 0)
    }
}

proof fn lemma_refused_stays(scan: ScanView, rows: u16, cols: u16, bytes: Seq<u8>, n: int)
    requires
        0 <= n <= bytes.len(),
        scan.bytes(rows, cols, bytes.take(n)) is None,
    ensures
        scan.bytes(rows, cols, bytes) is None,
    decreases bytes.len() - n,
{
    if n == bytes.len() {
        assert(bytes.take(n) =~= bytes);
    } else {
        assert(bytes.take(n + 1).drop_last() =~= bytes.take(n));
        lemma_refused_stays(scan, rows, cols, bytes, n + 1);
    }
}

// -------------------------------------------------------------------- laws

/// The columns of a scan lie on the terminal, or just behind its last column.
pub open spec fn within(scan: ScanView, cols: u16) -> bool {
    scan.col <= cols && scan.saved <= cols && scan.other_col <= cols && scan.other_saved <= cols
}

proof fn lemma_switched_within(scan: ScanView, cols: u16, modes: Seq<Parameter>, set: bool)
    requires
        within(scan, cols),
    ensures
        within(scan.all_switched(modes, set), cols),
    decreases modes.len(),
{
    if modes.len() > 0 {
        lemma_switched_within(scan, cols, modes.drop_last(), set);
    }
}

proof fn lemma_byte_within(scan: ScanView, rows: u16, cols: u16, byte: u8)
    requires
        cols > 0,
        within(scan, cols),
    ensures
        scan.byte(rows, cols, byte) matches Some(next) ==> within(next, cols),
        roomy(rows, cols) ==> scan.byte(rows, cols, byte) is Some,
{
    if let Position::Control(control) = scan.position {
        let next = scan.complete(control);
        lemma_switched_within(next, cols, next.list, byte == 0x68);
    }
    if let Position::ControlMore(control) = scan.position {
        let next = scan.complete(control);
        lemma_switched_within(next, cols, next.list, byte == 0x68);
    }
}

proof fn lemma_bytes_within(scan: ScanView, rows: u16, cols: u16, bytes: Seq<u8>)
    requires
        cols > 0,
        within(scan, cols),
    ensures
        scan.bytes(rows, cols, bytes) matches Some(next) ==> within(next, cols),
        roomy(rows, cols) ==> scan.bytes(rows, cols, bytes) is Some,
    decreases bytes.len(),
{
    if bytes.len() > 0 {
        lemma_bytes_within(scan, rows, cols, bytes.drop_last());
        if let Some(next) = scan.bytes(rows, cols, bytes.drop_last()) {
            lemma_byte_within(next, rows, cols, bytes.last());
        }
    }
}

/// The cursor never leaves the terminal, and a terminal with room enough takes
/// every stream of bytes, however it is cut.
pub proof fn law_roomy_terminals_take_everything(rows: u16, cols: u16, chunks: Seq<Seq<u8>>)
    requires
        cols > 0,
    ensures
        scanned(rows, cols, chunks) matches Some(scan) ==> within(scan, cols),
        roomy(rows, cols) ==> scanned(rows, cols, chunks) is Some,
    decreases chunks.len(),
{
    if chunks.len() > 0 {
        law_roomy_terminals_take_everything(rows, cols, chunks.drop_last());
        if let Some(scan) = scanned(rows, cols, chunks.drop_last()) {
            lemma_bytes_within(scan, rows, cols, scan.kept(chunks.last()));
        }
    }
}

proof fn lemma_plain_text(scan: ScanView, rows: u16, cols: u16, text: Seq<u8>)
    requires
        scan.position == Position::Text,
        scan.col + text.len() <= cols,
        forall|i: int| 0 <= i < text.len() ==> 0x20 <= #[trigger] text[i] <= 0x7e,
    ensures
        scan.bytes(rows, cols, text) == Some(scan.moved((scan.col + text.len()) as u16)),
    decreases text.len(),
{
    if text.len() > 0 {
        let rest = text.drop_last();
        assert forall|i: int| 0 <= i < rest.len() implies 0x20 <= #[trigger] rest[i] <= 0x7e by {
            assert(rest[i] == text[i]);
        }
        lemma_plain_text(scan, rows, cols, rest);
    }
}

proof fn lemma_bytes_concat(scan: ScanView, rows: u16, cols: u16, a: Seq<u8>, b: Seq<u8>)
    ensures
        scan.bytes(rows, cols, a + b) == match scan.bytes(rows, cols, a) {
            Some(next) => next.bytes(rows, cols, b),
            None => None,
        },
    decreases b.len(),
{
    if b.len() == 0 {
        assert(a + b =~= a);
    } else {
        assert((a + b).drop_last() =~= a + b.drop_last());
        lemma_bytes_concat(scan, rows, cols, a, b.drop_last());
    }
}

/// However full a line is, a carriage return gives all of it back: as many
/// characters as there are columns fit behind it.
pub proof fn law_line_can_be_rewritten(scan: ScanView, rows: u16, cols: u16, text: Seq<u8>)
    requires
        scan.position == Position::Text,
        text.len() <= cols,
        forall|i: int| 0 <= i < text.len() ==> 0x20 <= #[trigger] text[i] <= 0x7e,
    ensures
        scan.chunk(rows, cols, seq![0x0du8] + text) == Some(scan.moved(text.len() as u16)),
{
    let back = seq![0x0du8];
    reveal_with_fuel(ScanView::bytes, 2);
    assert(back.drop_last() =~= Seq::<u8>::empty());
    assert(scan.bytes(rows, cols, back) == Some(scan.moved(0)));
    lemma_bytes_concat(scan, rows, cols, back, text);
    lemma_plain_text(scan.moved(0), rows, cols, text);
}

/// Plain text moves the cursor by one column for each character. On one row it is
/// taken exactly as far as it fits.
pub proof fn law_plain_text_takes_its_columns(scan: ScanView, cols: u16, text: Seq<u8>)
    requires
        scan.position == Position::Text,
        scan.col <= cols,
        forall|i: int| 0 <= i < text.len() ==> 0x20 <= #[trigger] text[i] <= 0x7e,
    ensures
        scan.chunk(1, cols, text) is Some <==> scan.col + text.len() <= cols,
        scan.col + text.len() <= cols ==> scan.chunk(1, cols, text)->Some_0.col == scan.col
            + text.len(),
    decreases text.len(),
{
    if scan.col + text.len() <= cols {
        lemma_plain_text(scan, 1, cols, text);
    } else {
        let n = cols - scan.col;
        let fits = text.take(n);
        assert forall|i: int| 0 <= i < fits.len() implies 0x20 <= #[trigger] fits[i] <= 0x7e by {
            assert(fits[i] == text[i]);
        }
        lemma_plain_text(scan, 1, cols, fits);
        assert(text.take(n + 1).drop_last() =~= fits);
        assert(text.take(n + 1).last() == text[n]);
        lemma_refused_stays(scan, 1, cols, text, n + 1);
    }
}

/// How a stream is cut makes no difference, but where a cut makes the emulator
/// lose a byte: two chunks in a row are followed as both of them at once.
pub proof fn law_cutting_changes_nothing(
    scan: ScanView,
    rows: u16,
    cols: u16,
    first: Seq<u8>,
    second: Seq<u8>,
)
    requires
        !scan.swallows(first),
        !scan.swallows(first + second),
        scan.bytes(rows, cols, first) matches Some(next) ==> !next.swallows(second),
    ensures
        scan.chunk(rows, cols, first + second) == match scan.chunk(rows, cols, first) {
            Some(next) => next.chunk(rows, cols, second),
            None => None,
        },
{
    lemma_bytes_concat(scan, rows, cols, first, second);
}

/// What is lost by a cut is one ASCII byte: the second one of a chunk, where a
/// character of two bytes was cut after the first of them, and where a byte that is
/// not ASCII follows.
pub proof fn law_a_cut_loses_one_byte_at_most(scan: ScanView, chunk: Seq<u8>)
    ensures
        ({
            let kept = scan.kept(chunk);
            ||| kept == chunk
            ||| {
                &&& scan.position is Letter && scan.position->left == 1 && scan.position->code < 32
                &&& chunk.len() > 2 && chunk[1] < 0x80 && chunk[2] >= 0x80
                &&& kept == chunk.subrange(0, 1) + chunk.subrange(2, chunk.len() as int)
            }
        }),
{
    if scan.swallows(chunk) {
        assert(chunk.remove(1) =~= chunk.subrange(0, 1) + chunk.subrange(2, chunk.len() as int));
    }
}

/// The cursor moves by the number of a control sequence, one where there is none
/// or nothing: to the right and to the left of where it is, but not over the edge,
/// to a column, or to the left edge. Other control sequences leave it in its
/// column.
pub proof fn law_cursor_moves_by_numbers(scan: ScanView, cols: u16, number: u16, byte: u8)
    requires
        cols > 0,
        scan.list.len() == 0,
    ensures
        ({
            let control = Control {
                fresh: false,
                mark: Mark::Plain,
                count: 0,
                parts: 0,
                first: 0,
                number,
            };
            let n = if number == 0 { 1int } else { number as int };
            let col = scan.controlled(cols, control, byte).col as int;
            let right = if scan.col + n < cols { scan.col + n } else { cols - 1 };
            let left = if scan.col > n { scan.col - n } else { 0 };
            let place = if n <= cols { n - 1 } else { cols - 1 };
            &&& byte == 0x43 ==> col == right
            &&& byte == 0x44 ==> col == left
            &&& byte == 0x47 ==> col == place
            &&& byte == 0x45 || byte == 0x46 || byte == 0x48 || byte == 0x72 ==> col == 0
            &&& !(0x43 <= byte <= 0x48) && byte != 0x72 ==> col == scan.col
            &&& scan.controlled(cols, control, byte).saved == scan.saved
        }),
{
}

/// The numbers of a control sequence are decimal, and none is larger than 65535.
/// Behind a semicolon the next parameter begins.
pub proof fn law_numbers_are_decimal(scan: ScanView, control: Control, byte: u8)
    requires
        control.count < 32,
        0x30 <= byte <= 0x39,
    ensures
        with_digit(control, byte).number == if control.number * 10 + (byte - 0x30) <= 65535 {
            control.number * 10 + (byte - 0x30)
        } else {
            65535
        },
        with_parameter(control).number == 0,
        with_parameter(control).count == control.count + 1,
        control.parts == 0 ==> scan.listed(control).list == scan.list.push(
            Parameter { number: control.number, alone: true },
        ),
{
}

/// A column that was saved comes back, wherever the cursor went meanwhile.
pub proof fn law_saved_column_comes_back(scan: ScanView, col: u16)
    ensures
        scan.escaped(0x37).moved(col).escaped(0x38).col == scan.col,
        scan.escaped(0x37).col == scan.col,
        scan.escaped(0x63).col == 0,
{
}

/// The alternate screen starts at the left edge, and to leave it gives back the
/// column of the main screen, wherever the cursor went on the other one. Setting
/// the origin mode goes to the left edge.
pub proof fn law_main_screen_keeps_its_column(scan: ScanView, col: u16, set: bool)
    requires
        !scan.alternate,
    ensures
        ({
            let full = Parameter { number: 1049, alone: true };
            let plain = Parameter { number: 47, alone: true };
            let origin = Parameter { number: 6, alone: true };
            let there = scan.switched(full, true);
            &&& there.alternate && there.col == 0
            &&& !there.moved(col).switched(full, false).alternate
            &&& there.moved(col).switched(full, false).col == scan.col
            &&& scan.switched(plain, true).alternate
            &&& scan.switched(plain, true).moved(col).switched(plain, false).col == scan.col
            &&& scan.switched(origin, set).col == 0
        }),
{
}

/// Private modes are set one by one, in the order of their parameters; those that
/// neither move the cursor nor switch the screen, and those with several numbers,
/// change nothing.
pub proof fn law_modes_are_set_one_by_one(
    scan: ScanView,
    first: Seq<Parameter>,
    second: Seq<Parameter>,
    mode: Parameter,
    set: bool,
)
    ensures
        scan.all_switched(first + second, set) == scan.all_switched(first, set).all_switched(
            second,
            set,
        ),
        scan.all_switched(Seq::empty(), set) == scan,
        scan.all_switched(seq![mode], set) == scan.switched(mode, set),
        !mode.alone || (mode.number != 6 && mode.number != 47 && mode.number != 1049)
            ==> scan.switched(mode, set) == scan,
    decreases second.len(),
{
    reveal_with_fuel(ScanView::all_switched, 2);
    assert(seq![mode].drop_last() =~= Seq::<Parameter>::empty());
    if second.len() == 0 {
        assert(first + second =~= first);
    } else {
        assert((first + second).drop_last() =~= first + second.drop_last());
        law_modes_are_set_one_by_one(scan, first, second.drop_last(), mode, set);
    }
}

/// Control strings, titles and notes are never shown: whatever they hold, the
/// cursor stays where it is.
pub proof fn law_strings_are_not_shown(scan: ScanView, rows: u16, cols: u16, byte: u8)
    requires
        scan.position is Device || scan.position is DeviceParameters || scan.position is DeviceMore
            || scan.position is DeviceIgnored || scan.position is DeviceData
            || scan.position is Command || scan.position is Note,
    ensures
        scan.byte(rows, cols, byte) matches Some(next) && next.col == scan.col && next.saved
            == scan.saved && next.alternate == scan.alternate,
{
}

/// A carriage return goes to the left edge, a backspace one column to the left,
/// and a tab to the next column that is a multiple of eight, but not over the edge;
/// a tab with 65528 columns or more to its left is refused. No other control
/// character leaves the column.
pub proof fn law_control_characters_move_the_cursor(scan: ScanView, cols: u16, byte: u8)
    requires
        cols > 0,
        scan.col <= cols,
    ensures
        byte != 0x09 ==> scan.executed(cols, byte) is Some,
        byte == 0x09 ==> (scan.executed(cols, byte) is Some <==> scan.col < 65528),
        scan.executed(cols, byte) matches Some(next) ==> {
            &&& byte == 0x0d ==> next.col == 0
            &&& byte == 0x08 ==> next.col == if scan.col == 0 {
                0
            } else {
                scan.col - 1
            }
            &&& byte == 0x09 ==> {
                ||| next.col % 8 == 0 && scan.col < next.col <= scan.col + 8 && next.col < cols
                ||| next.col == cols - 1 && forall|stop: int|
                    scan.col < stop < cols ==> #[trigger] (stop % 8) != 0
            }
            &&& byte != 0x08 && byte != 0x09 && byte != 0x0d ==> next == scan
        },
{
    if byte == 0x09 && scan.col < 65528 {
        let stop = scan.col - scan.col % 8 + 8;
        assert(stop % 8 == 0);
        assert forall|other: int| scan.col < other < stop implies #[trigger] (other % 8) != 0 by {}
    }
}

proof fn lemma_two_bytes(n: u32)
    requires
        0x80 <= n <= 0x7ff,
    ensures
        leading_byte_width_2(n) == 0xc0 + n / 64,
        last_continuation_byte(n) == 0x80 + n % 64,
{
    assert((0xC0u8 | ((n >> 6) & 0x1F) as u8) == 0xc0 + n / 64) by (bit_vector)
        requires
            0x80 <= n <= 0x7ff,
    ;
    assert((0x80u8 | (n & 0x3F) as u8) == 0x80 + n % 64) by (bit_vector);
}

proof fn lemma_three_bytes(n: u32)
    requires
        0x800 <= n <= 0xffff,
    ensures
        leading_byte_width_3(n) == 0xe0 + n / 4096,
        second_last_continuation_byte(n) == 0x80 + n / 64 % 64,
        last_continuation_byte(n) == 0x80 + n % 64,
{
    assert((0xE0u8 | ((n >> 12) & 0x0F) as u8) == 0xe0 + n / 4096) by (bit_vector)
        requires
            0x800 <= n <= 0xffff,
    ;
    assert((0x80u8 | ((n >> 6) & 0x3F) as u8) == 0x80 + n / 64 % 64) by (bit_vector);
    assert((0x80u8 | (n & 0x3F) as u8) == 0x80 + n % 64) by (bit_vector);
}

proof fn lemma_four_bytes(n: u32)
    requires
        0x10000 <= n <= 0x10ffff,
    ensures
        leading_byte_width_4(n) == 0xf0 + n / 262144,
        third_last_continuation_byte(n) == 0x80 + n / 4096 % 64,
        second_last_continuation_byte(n) == 0x80 + n / 64 % 64,
        last_continuation_byte(n) == 0x80 + n % 64,
{
    assert((0xF0u8 | ((n >> 18) & 0x7) as u8) == 0xf0 + n / 262144) by (bit_vector)
        requires
            0x10000 <= n <= 0x10ffff,
    ;
    assert((0x80u8 | ((n >> 12) & 0x3F) as u8) == 0x80 + n / 4096 % 64) by (bit_vector);
    assert((0x80u8 | ((n >> 6) & 0x3F) as u8) == 0x80 + n / 64 % 64) by (bit_vector);
    assert((0x80u8 | (n & 0x3F) as u8) == 0x80 + n % 64) by (bit_vector);
}

proof fn lemma_one_more_byte(scan: ScanView, rows: u16, cols: u16, bytes: Seq<u8>, byte: u8)
    ensures
        scan.bytes(rows, cols, Seq::empty()) == Some(scan),
        scan.bytes(rows, cols, bytes.push(byte)) == match scan.bytes(rows, cols, bytes) {
            Some(next) => next.byte(rows, cols, byte),
            None => None,
        },
{
    assert(bytes.push(byte).drop_last() =~= bytes);
}

/// What a whole character does to a scan.
#[verifier::opaque]
spec fn spelled(scan: ScanView, rows: u16, cols: u16, code: u32) -> Option<ScanView> {
    if code < 0xa0 || code == 0xfffd {
        Some(scan)
    } else {
        scan.printed(rows, cols, columns(code))
    }
}

proof fn lemma_last_byte(
    scan: ScanView,
    rows: u16,
    cols: u16,
    low: u8,
    high: u8,
    code: u32,
    byte: u8,
    whole: u32,
)
    requires
        scan.position == Position::Text,
        low <= byte <= high,
        code * 64 + (byte - 0x80) == whole,
    ensures
        scan.begun(1, low, high, code as int).byte(rows, cols, byte) == spelled(
            scan,
            rows,
            cols,
            whole,
        ),
{
    reveal(spelled);
    assert(scan.begun(1, low, high, code as int).at(Position::Text) == scan);
}

proof fn lemma_middle_byte(
    scan: ScanView,
    rows: u16,
    cols: u16,
    left: u8,
    low: u8,
    high: u8,
    code: u32,
    byte: u8,
    whole: u32,
)
    requires
        left > 1,
        low <= byte <= high,
        code * 64 + (byte - 0x80) == whole,
    ensures
        scan.begun(left, low, high, code as int).byte(rows, cols, byte) == Some(
            scan.begun((left - 1) as u8, 0x80, 0xbf, whole as int),
        ),
{
}

proof fn lemma_parts(n: u32)
    ensures
        n / 262144 * 64 + n / 4096 % 64 == n / 4096,
        n / 4096 * 64 + n / 64 % 64 == n / 64,
        n / 64 * 64 + n % 64 == n,
{
}

proof fn lemma_first_byte(scan: ScanView, rows: u16, cols: u16, byte: u8)
    requires
        scan.position == Position::Text,
        0xc2 <= byte <= 0xf4,
    ensures
        scan.bytes(rows, cols, seq![byte]) == Some(
            if byte <= 0xdf {
                scan.begun(1, 0x80, 0xbf, byte - 0xc0)
            } else if byte <= 0xef {
                scan.begun(
                    2,
                    if byte == 0xe0 {
                        0xa0
                    } else {
                        0x80
                    },
                    if byte == 0xed {
                        0x9f
                    } else {
                        0xbf
                    },
                    byte - 0xe0,
                )
            } else {
                scan.begun(
                    3,
                    if byte == 0xf0 {
                        0x90
                    } else {
                        0x80
                    },
                    if byte == 0xf4 {
                        0x8f
                    } else {
                        0xbf
                    },
                    byte - 0xf0,
                )
            },
        ),
{
    lemma_one_more_byte(scan, rows, cols, Seq::empty(), byte);
    assert(Seq::<u8>::empty().push(byte) =~= seq![byte]);
}

proof fn lemma_another_byte(
    scan: ScanView,
    rows: u16,
    cols: u16,
    bytes: Seq<u8>,
    left: u8,
    low: u8,
    high: u8,
    code: u32,
    byte: u8,
    whole: u32,
)
    requires
        scan.bytes(rows, cols, bytes) == Some(scan.begun(left, low, high, code as int)),
        left > 1,
        low <= byte <= high,
        code * 64 + (byte - 0x80) == whole,
    ensures
        scan.bytes(rows, cols, bytes.push(byte)) == Some(
            scan.begun((left - 1) as u8, 0x80, 0xbf, whole as int),
        ),
{
    lemma_one_more_byte(scan, rows, cols, bytes, byte);
    lemma_middle_byte(scan, rows, cols, left, low, high, code, byte, whole);
}

proof fn lemma_whole_character(
    scan: ScanView,
    rows: u16,
    cols: u16,
    bytes: Seq<u8>,
    code: u32,
    byte: u8,
    whole: u32,
)
    requires
        scan.position == Position::Text,
        scan.bytes(rows, cols, bytes) == Some(scan.begun(1, 0x80, 0xbf, code as int)),
        0x80 <= byte <= 0xbf,
        code * 64 + (byte - 0x80) == whole,
    ensures
        scan.bytes(rows, cols, bytes.push(byte)) == spelled(scan, rows, cols, whole),
{
    lemma_one_more_byte(scan, rows, cols, bytes, byte);
    lemma_last_byte(scan, rows, cols, 0x80, 0xbf, code, byte, whole);
}

proof fn lemma_spelled(scan: ScanView, rows: u16, cols: u16, n: u32)
    requires
        scan.position == Position::Text,
        0x80 <= n <= 0x10ffff,
        !(0xd800 <= n <= 0xdfff),
    ensures
        scan.bytes(rows, cols, encode_scalar(n)) == spelled(scan, rows, cols, n),
{
    lemma_parts(n);
    let bytes = encode_scalar(n);
    if n <= 0x7ff {
        lemma_two_bytes(n);
        lemma_first_byte(scan, rows, cols, bytes[0]);
        lemma_whole_character(scan, rows, cols, seq![bytes[0]], n / 64, bytes[1], n);
        assert(bytes =~= seq![bytes[0]].push(bytes[1]));
    } else if n <= 0xffff {
        lemma_three_bytes(n);
        let low = if bytes[0] == 0xe0 { 0xa0u8 } else { 0x80u8 };
        let high = if bytes[0] == 0xed { 0x9fu8 } else { 0xbfu8 };
        let one = seq![bytes[0]];
        lemma_first_byte(scan, rows, cols, bytes[0]);
        lemma_another_byte(scan, rows, cols, one, 2, low, high, n / 4096, bytes[1], n / 64);
        lemma_whole_character(scan, rows, cols, one.push(bytes[1]), n / 64, bytes[2], n);
        assert(bytes =~= one.push(bytes[1]).push(bytes[2]));
    } else {
        lemma_four_bytes(n);
        let low = if bytes[0] == 0xf0 { 0x90u8 } else { 0x80u8 };
        let high = if bytes[0] == 0xf4 { 0x8fu8 } else { 0xbfu8 };
        let one = seq![bytes[0]];
        let two = one.push(bytes[1]);
        lemma_first_byte(scan, rows, cols, bytes[0]);
        lemma_another_byte(scan, rows, cols, one, 3, low, high, n / 262144, bytes[1], n / 4096);
        lemma_another_byte(scan, rows, cols, two, 2, 0x80, 0xbf, n / 4096, bytes[2], n / 64);
        lemma_whole_character(scan, rows, cols, two.push(bytes[2]), n / 64, bytes[3], n);
        assert(bytes =~= two.push(bytes[2]).push(bytes[3]));
    }
}

/// Text is read as UTF-8: the bytes of a character print that character, as wide
/// as it is. The controls from U+0080 to U+009F and U+FFFD show nothing.
pub proof fn law_text_is_read_as_utf8(scan: ScanView, rows: u16, cols: u16, c: char)
    requires
        scan.position == Position::Text,
        c as u32 >= 0x80,
    ensures
        c as u32 >= 0xa0 && c as u32 != 0xfffd ==> scan.bytes(rows, cols, encode_utf8(seq![c]))
            == scan.printed(rows, cols, columns(c as u32)),
        (c as u32) < 0xa0 || c as u32 == 0xfffd ==> scan.bytes(
            rows,
            cols,
            encode_utf8(seq![c]),
        ) == Some(scan),
{
    let n = c as u32;
    reveal(spelled);
    char_is_scalar(c);
    assert(encode_utf8(seq![c]) =~= encode_scalar(n)) by {
        reveal_with_fuel(encode_utf8, 2);
        assert(seq![c].drop_first() =~= Seq::<char>::empty());
    }
    lemma_spelled(scan, rows, cols, n);
}

/// A character moves the cursor by its columns, by two where it takes three, from
/// where it is or, where it does not fit there, from the left edge of the next row.
/// One that is wider than the terminal is refused, and so is one that would need a
/// next row where there is none.
pub proof fn law_characters_go_where_they_fit(scan: ScanView, rows: u16, cols: u16, width: u32)
    requires
        rows > 0,
        1 <= width <= 3,
        scan.col <= cols,
    ensures
        scan.printed(rows, cols, 0) == Some(scan),
        scan.printed(rows, cols, width) is Some <==> width <= cols && (rows > 1 || scan.col + width
            <= cols),
        scan.printed(rows, cols, width) matches Some(next) ==> {
            let moved = if width == 3 { 2int } else { width as int };
            &&& scan.col + width <= cols ==> next.col == scan.col + moved
            &&& scan.col + width > cols ==> next.col == moved
            &&& next.position == scan.position && next.saved == scan.saved && next.alternate
                == scan.alternate
        },
{
}

/// The cursor is placed in the column that the second number of a sequence gives,
/// but not over the edge; the first number is that of the row.
pub proof fn law_cursor_is_placed_by_the_second_number(
    scan: ScanView,
    cols: u16,
    row: Parameter,
    number: u16,
)
    requires
        cols > 0,
        scan.list == seq![row],
    ensures
        ({
            let control = Control {
                fresh: false,
                mark: Mark::Plain,
                count: 1,
                parts: 0,
                first: 0,
                number,
            };
            let place = if number == 0 { 0int } else { number - 1 };
            scan.controlled(cols, control, 0x48).col == if place < cols {
                place
            } else {
                cols - 1
            }
        }),
{
}

/// Bytes that no character starts with show nothing, and neither does a character
/// that is broken off: what breaks it off is read as if it had not been there.
pub proof fn law_broken_text_shows_nothing(
    scan: ScanView,
    rows: u16,
    cols: u16,
    left: u8,
    low: u8,
    high: u8,
    code: u32,
    byte: u8,
)
    requires
        scan.position == Position::Text,
    ensures
        0x7f <= byte <= 0xc1 || byte >= 0xf5 ==> scan.byte(rows, cols, byte) == Some(scan),
        !(low <= byte <= high) ==> scan.begun(left, low, high, code as int).byte(rows, cols, byte)
            == scan.byte(rows, cols, byte),
{
    let begun = scan.begun(left, low, high, code as int);
    assert(begun.at(Position::Text) == scan);
    assert(scan.at(Position::Text) == scan);
}

/// Escape sequences come to an end, and show nothing: a control sequence begins
/// without numbers, and behind its last byte, as behind that of any other sequence,
/// there is text again. Sequences that neither save nor restore the cursor nor
/// reset the terminal leave it where it is.
pub proof fn law_sequences_come_to_an_end(
    scan: ScanView,
    rows: u16,
    cols: u16,
    control: Control,
    byte: u8,
)
    ensures
        scan.position == Position::Text ==> scan.byte(rows, cols, 0x1b) == Some(
            scan.at(Position::Escape),
        ),
        scan.position == Position::Escape ==> (scan.byte(rows, cols, 0x5b) matches Some(next)
            && next.position is Control && next.list.len() == 0 && next.col == scan.col),
        scan.position == Position::Escape && 0x30 <= byte <= 0x4f && byte != 0x37 && byte != 0x38
            ==> scan.byte(rows, cols, byte) == Some(scan.at(Position::Text)),
        scan.position == Position::EscapeMore && 0x30 <= byte <= 0x7e ==> scan.byte(
            rows,
            cols,
            byte,
        ) == Some(scan.at(Position::Text)),
        scan.position == Position::Control(control) && 0x40 <= byte <= 0x7e ==> (scan.byte(
            rows,
            cols,
            byte,
        ) matches Some(next) && next.position == Position::Text),
        scan.position == Position::ControlIgnored && 0x40 <= byte <= 0x7e ==> scan.byte(
            rows,
            cols,
            byte,
        ) == Some(scan.at(Position::Text)),
{
}

} // verus!
