//! The terminal emulator behind a session.
//!
//! The emulation itself is the work of the `vt100` crate. What it shows is
//! given names over the geometry and the chunks of bytes that it was fed, in
//! the order of the calls: how the bytes were cut into chunks matters to the
//! emulator where a chunk ends inside a character.

use vstd::prelude::*;
use crate::frame::{Cell, CellView, Color, Cursor, Frame, FrameView, Style};
use crate::frame::{DEFAULT_BACKGROUND, DEFAULT_FOREGROUND, FRAME_VERSION};
use crate::scan::{law_roomy_terminals_take_everything, roomy, scanned, start, Scan};

verus! {

/// The terminal emulator of the `vt100` crate.
#[verifier::external_body]
pub struct Emulator {
    parser: vt100::Parser,
}

/// The chunks that an emulator has processed, oldest first.
pub uninterp spec fn fed(emulator: Emulator) -> Seq<Seq<u8>>;

/// The rows and columns that an emulator was made with.
pub uninterp spec fn geometry(emulator: Emulator) -> (u16, u16);

/// The visible text of a terminal, as `vt100::Screen::contents` gives it.
pub uninterp spec fn screen_contents(rows: u16, cols: u16, chunks: Seq<Seq<u8>>) -> Seq<char>;

/// The text of one cell, as `vt100::Cell::contents` gives it.
pub uninterp spec fn cell_text(
    rows: u16,
    cols: u16,
    chunks: Seq<Seq<u8>>,
    row: u16,
    col: u16,
) -> Seq<char>;

/// The text colour of one cell, as `vt100::Cell::fgcolor` gives it.
pub uninterp spec fn cell_foreground(
    rows: u16,
    cols: u16,
    chunks: Seq<Seq<u8>>,
    row: u16,
    col: u16,
) -> Color;

/// The background of one cell, as `vt100::Cell::bgcolor` gives it.
pub uninterp spec fn cell_background(
    rows: u16,
    cols: u16,
    chunks: Seq<Seq<u8>>,
    row: u16,
    col: u16,
) -> Color;

/// Whether one cell is bold, as `vt100::Cell::bold` gives it.
pub uninterp spec fn cell_bold(
    rows: u16,
    cols: u16,
    chunks: Seq<Seq<u8>>,
    row: u16,
    col: u16,
) -> bool;

/// Whether one cell is dim, as `vt100::Cell::dim` gives it.
pub uninterp spec fn cell_dim(
    rows: u16,
    cols: u16,
    chunks: Seq<Seq<u8>>,
    row: u16,
    col: u16,
) -> bool;

/// Whether one cell is italic, as `vt100::Cell::italic` gives it.
pub uninterp spec fn cell_italic(
    rows: u16,
    cols: u16,
    chunks: Seq<Seq<u8>>,
    row: u16,
    col: u16,
) -> bool;

/// Whether one cell is underlined, as `vt100::Cell::underline` gives it.
pub uninterp spec fn cell_underline(
    rows: u16,
    cols: u16,
    chunks: Seq<Seq<u8>>,
    row: u16,
    col: u16,
) -> bool;

/// Whether the colours of one cell are swapped, as `vt100::Cell::inverse` gives it.
pub uninterp spec fn cell_inverse(
    rows: u16,
    cols: u16,
    chunks: Seq<Seq<u8>>,
    row: u16,
    col: u16,
) -> bool;

/// Whether the text of one cell spans two, as `vt100::Cell::is_wide` gives it.
pub uninterp spec fn cell_wide(
    rows: u16,
    cols: u16,
    chunks: Seq<Seq<u8>>,
    row: u16,
    col: u16,
) -> bool;

/// Whether the text of the previous cell reaches into one cell, as `vt100::Cell::is_wide_continuation` gives it.
pub uninterp spec fn cell_continuation(
    rows: u16,
    cols: u16,
    chunks: Seq<Seq<u8>>,
    row: u16,
    col: u16,
) -> bool;

/// The row and column of the cursor, as `vt100::Screen::cursor_position` gives
/// them.
pub uninterp spec fn cursor_place(rows: u16, cols: u16, chunks: Seq<Seq<u8>>) -> (u16, u16);

/// Whether the cursor is hidden, as `vt100::Screen::hide_cursor` gives it.
pub uninterp spec fn cursor_hidden(rows: u16, cols: u16, chunks: Seq<Seq<u8>>) -> bool;

/// Whether the emulator takes some chunks, that is those that a scan follows to
/// the end. On the others it panics.
pub open spec fn takes(rows: u16, cols: u16, chunks: Seq<Seq<u8>>) -> bool {
    rows > 0 && cols > 0 && scanned(rows, cols, chunks) is Some
}

/// Calls `vt100::Parser::new` without scrollback: an emulator that has processed
/// nothing. It panics at a size of nothing.
#[verifier::external_body]
fn new_parser(rows: u16, cols: u16) -> (emulator: Emulator)
    requires
        rows > 0,
        cols > 0,
    ensures
        fed(emulator) == Seq::<Seq<u8>>::empty(),
        geometry(emulator) == (rows, cols),
{
    Emulator { parser: vt100::Parser::new(rows, cols, 0) }
}

/// Calls `vt100::Parser::process`: the chunk follows those before it, and the
/// size stays. Bytes on which the emulator panics are left out: its code panics
/// where the scan stops, with one reservation. A tab too far to the right, and
/// U+17D8 on two columns, overflow its arithmetic, which panics where overflow is
/// checked.
#[verifier::external_body]
fn process_chunk(emulator: &mut Emulator, bytes: &[u8])
    requires
        takes(
            geometry(*old(emulator)).0,
            geometry(*old(emulator)).1,
            fed(*old(emulator)).push(bytes@),
        ),
    ensures
        fed(*final(emulator)) == fed(*old(emulator)).push(bytes@),
        geometry(*final(emulator)) == geometry(*old(emulator)),
{
    emulator.parser.process(bytes)
}

/// Calls `vt100::Screen::size`: the size that the emulator was made with.
#[verifier::external_body]
fn screen_size(emulator: &Emulator) -> (size: (u16, u16))
    ensures
        size == geometry(*emulator),
{
    emulator.parser.screen().size()
}

/// Calls `vt100::Screen::contents`.
#[verifier::external_body]
fn contents(emulator: &Emulator) -> (text: String)
    ensures
        text@ == screen_contents(geometry(*emulator).0, geometry(*emulator).1, fed(*emulator)),
{
    emulator.parser.screen().contents()
}

/// Calls `vt100::Cell::contents` on the cell that `vt100::Screen::cell` gives:
/// there is one at every place of the screen.
#[verifier::external_body]
fn text_at(emulator: &Emulator, row: u16, col: u16) -> (text: String)
    requires
        row < geometry(*emulator).0,
        col < geometry(*emulator).1,
    ensures
        text@ == cell_text(
            geometry(*emulator).0,
            geometry(*emulator).1,
            fed(*emulator),
            row,
            col,
        ),
{
    emulator.parser.screen().cell(row, col).unwrap().contents().to_owned()
}

/// Calls `vt100::Cell::fgcolor` on the cell that `vt100::Screen::cell` gives.
#[verifier::external_body]
fn foreground_at(emulator: &Emulator, row: u16, col: u16) -> (color: Color)
    requires
        row < geometry(*emulator).0,
        col < geometry(*emulator).1,
    ensures
        color == cell_foreground(
            geometry(*emulator).0,
            geometry(*emulator).1,
            fed(*emulator),
            row,
            col,
        ),
{
    match emulator.parser.screen().cell(row, col).unwrap().fgcolor() {
        vt100::Color::Default => Color::Default,
        vt100::Color::Idx(index) => Color::Idx(index),
        vt100::Color::Rgb(red, green, blue) => Color::Rgb(red, green, blue),
    }
}

/// Calls `vt100::Cell::bgcolor` on the cell that `vt100::Screen::cell` gives.
#[verifier::external_body]
fn background_at(emulator: &Emulator, row: u16, col: u16) -> (color: Color)
    requires
        row < geometry(*emulator).0,
        col < geometry(*emulator).1,
    ensures
        color == cell_background(
            geometry(*emulator).0,
            geometry(*emulator).1,
            fed(*emulator),
            row,
            col,
        ),
{
    match emulator.parser.screen().cell(row, col).unwrap().bgcolor() {
        vt100::Color::Default => Color::Default,
        vt100::Color::Idx(index) => Color::Idx(index),
        vt100::Color::Rgb(red, green, blue) => Color::Rgb(red, green, blue),
    }
}

/// Calls `vt100::Cell::bold` on the cell that `vt100::Screen::cell` gives.
#[verifier::external_body]
fn bold_at(emulator: &Emulator, row: u16, col: u16) -> (is: bool)
    requires
        row < geometry(*emulator).0,
        col < geometry(*emulator).1,
    ensures
        is == cell_bold(geometry(*emulator).0, geometry(*emulator).1, fed(*emulator), row, col),
{
    emulator.parser.screen().cell(row, col).unwrap().bold()
}

/// Calls `vt100::Cell::dim` on the cell that `vt100::Screen::cell` gives.
#[verifier::external_body]
fn dim_at(emulator: &Emulator, row: u16, col: u16) -> (is: bool)
    requires
        row < geometry(*emulator).0,
        col < geometry(*emulator).1,
    ensures
        is == cell_dim(geometry(*emulator).0, geometry(*emulator).1, fed(*emulator), row, col),
{
    emulator.parser.screen().cell(row, col).unwrap().dim()
}

/// Calls `vt100::Cell::italic` on the cell that `vt100::Screen::cell` gives.
#[verifier::external_body]
fn italic_at(emulator: &Emulator, row: u16, col: u16) -> (is: bool)
    requires
        row < geometry(*emulator).0,
        col < geometry(*emulator).1,
    ensures
        is == cell_italic(geometry(*emulator).0, geometry(*emulator).1, fed(*emulator), row, col),
{
    emulator.parser.screen().cell(row, col).unwrap().italic()
}

/// Calls `vt100::Cell::underline` on the cell that `vt100::Screen::cell` gives.
#[verifier::external_body]
fn underline_at(emulator: &Emulator, row: u16, col: u16) -> (is: bool)
    requires
        row < geometry(*emulator).0,
        col < geometry(*emulator).1,
    ensures
        is == cell_underline(geometry(*emulator).0, geometry(*emulator).1, fed(*emulator), row, col),
{
    emulator.parser.screen().cell(row, col).unwrap().underline()
}

/// Calls `vt100::Cell::inverse` on the cell that `vt100::Screen::cell` gives.
#[verifier::external_body]
fn inverse_at(emulator: &Emulator, row: u16, col: u16) -> (is: bool)
    requires
        row < geometry(*emulator).0,
        col < geometry(*emulator).1,
    ensures
        is == cell_inverse(geometry(*emulator).0, geometry(*emulator).1, fed(*emulator), row, col),
{
    emulator.parser.screen().cell(row, col).unwrap().inverse()
}

/// Calls `vt100::Cell::is_wide` on the cell that `vt100::Screen::cell` gives.
#[verifier::external_body]
fn wide_at(emulator: &Emulator, row: u16, col: u16) -> (is: bool)
    requires
        row < geometry(*emulator).0,
        col < geometry(*emulator).1,
    ensures
        is == cell_wide(geometry(*emulator).0, geometry(*emulator).1, fed(*emulator), row, col),
{
    emulator.parser.screen().cell(row, col).unwrap().is_wide()
}

/// Calls `vt100::Cell::is_wide_continuation` on the cell that `vt100::Screen::cell` gives.
#[verifier::external_body]
fn continuation_at(emulator: &Emulator, row: u16, col: u16) -> (is: bool)
    requires
        row < geometry(*emulator).0,
        col < geometry(*emulator).1,
    ensures
        is == cell_continuation(geometry(*emulator).0, geometry(*emulator).1, fed(*emulator), row, col),
{
    emulator.parser.screen().cell(row, col).unwrap().is_wide_continuation()
}

/// Calls `vt100::Screen::cursor_position`.
#[verifier::external_body]
fn cursor_position(emulator: &Emulator) -> (place: (u16, u16))
    ensures
        place == cursor_place(geometry(*emulator).0, geometry(*emulator).1, fed(*emulator)),
{
    emulator.parser.screen().cursor_position()
}

/// Calls `vt100::Screen::hide_cursor`.
#[verifier::external_body]
fn hides_cursor(emulator: &Emulator) -> (hidden: bool)
    ensures
        hidden == cursor_hidden(geometry(*emulator).0, geometry(*emulator).1, fed(*emulator)),
{
    emulator.parser.screen().hide_cursor()
}

/// A terminal that shows what it is fed.
pub struct Terminal {
    emulator: Emulator,
    /// The scan of what was fed, at the sizes at which one is needed.
    scan: Scan,
}

/// A terminal as a mathematical value: its size and what it was fed.
pub struct TerminalView {
    pub rows: u16,
    pub cols: u16,
    pub fed: Seq<Seq<u8>>,
}

impl View for Terminal {
    type V = TerminalView;

    closed spec fn view(&self) -> TerminalView {
        TerminalView {
            rows: geometry(self.emulator).0,
            cols: geometry(self.emulator).1,
            fed: fed(self.emulator),
        }
    }
}

impl TerminalView {
    /// What was fed can be shown.
    pub open spec fn wf(self) -> bool {
        takes(self.rows, self.cols, self.fed)
    }

    /// Whether one more chunk can be shown.
    pub open spec fn takes(self, chunk: Seq<u8>) -> bool {
        takes(self.rows, self.cols, self.fed.push(chunk))
    }

    /// The terminal after one more chunk.
    pub open spec fn after(self, chunk: Seq<u8>) -> TerminalView {
        TerminalView { fed: self.fed.push(chunk), ..self }
    }

    /// The visible text.
    pub open spec fn text(self) -> Seq<char> {
        screen_contents(self.rows, self.cols, self.fed)
    }

    /// One cell of the screen.
    pub open spec fn cell(self, row: u16, col: u16) -> CellView {
        CellView {
            text: cell_text(self.rows, self.cols, self.fed, row, col),
            foreground: cell_foreground(self.rows, self.cols, self.fed, row, col),
            background: cell_background(self.rows, self.cols, self.fed, row, col),
            style: Style {
                bold: cell_bold(self.rows, self.cols, self.fed, row, col),
                dim: cell_dim(self.rows, self.cols, self.fed, row, col),
                italic: cell_italic(self.rows, self.cols, self.fed, row, col),
                underline: cell_underline(self.rows, self.cols, self.fed, row, col),
                inverse: cell_inverse(self.rows, self.cols, self.fed, row, col),
                wide: cell_wide(self.rows, self.cols, self.fed, row, col),
                continuation: cell_continuation(self.rows, self.cols, self.fed, row, col),
            },
        }
    }

    /// The cursor, where it is shown.
    pub open spec fn cursor(self) -> Option<Cursor> {
        if cursor_hidden(self.rows, self.cols, self.fed) {
            None
        } else {
            let place = cursor_place(self.rows, self.cols, self.fed);
            Some(Cursor { row: place.0, col: place.1 })
        }
    }

    /// The visible screen: every cell, row by row.
    pub open spec fn frame(self) -> FrameView {
        FrameView {
            version: FRAME_VERSION,
            cols: self.cols,
            rows: self.rows,
            foreground: DEFAULT_FOREGROUND,
            background: DEFAULT_BACKGROUND,
            cursor: self.cursor(),
            cells: Seq::new(
                self.rows as nat * self.cols as nat,
                |i: int| self.cell((i / self.cols as int) as u16, (i % self.cols as int) as u16),
            ),
        }
    }
}

/// Whether the emulator takes every stream of bytes at this size.
pub fn is_roomy(rows: u16, cols: u16) -> (fits: bool)
    ensures
        fits == roomy(rows, cols),
{
    rows >= 2 && 3 <= cols && cols <= 65527
}

/// A terminal that has shown nothing yet.
pub fn terminal(rows: u16, cols: u16) -> (terminal: Terminal)
    requires
        rows > 0,
        cols > 0,
    ensures
        terminal.wf(),
        terminal@ == (TerminalView { rows, cols, fed: Seq::empty() }),
{
    Terminal { emulator: new_parser(rows, cols), scan: start() }
}

impl Terminal {
    /// What was fed can be shown, and the scan of it is right.
    pub open spec fn wf(self) -> bool {
        self@.wf() && self.noted()
    }

    /// The scan of what was fed is right, at the sizes at which one is needed.
    pub closed spec fn noted(self) -> bool {
        roomy(self@.rows, self@.cols) || (self.scan.wf() && scanned(
            self@.rows,
            self@.cols,
            self@.fed,
        ) == Some(self.scan@))
    }

    /// Whether one more chunk of output can be shown.
    pub fn takes(&self, bytes: &[u8]) -> (taken: bool)
        requires
            self.wf(),
        ensures
            taken == self@.takes(bytes@),
    {
        let (rows, cols): (u16, u16) = screen_size(&self.emulator);
        if is_roomy(rows, cols) {
            proof {
                law_roomy_terminals_take_everything(rows, cols, self@.fed.push(bytes@));
            }
            return true;
        }
        assert(self@.fed.push(bytes@).drop_last() =~= self@.fed);
        let mut scan: Scan = self.scan.duplicate();
        scan.follow(rows, cols, bytes)
    }

    /// Shows one more chunk of output.
    pub fn process(&mut self, bytes: &[u8])
        requires
            old(self).wf(),
            old(self)@.takes(bytes@),
        ensures
            final(self).wf(),
            final(self)@ == old(self)@.after(bytes@),
    {
        let (rows, cols): (u16, u16) = screen_size(&self.emulator);
        if !is_roomy(rows, cols) {
            assert(self@.fed.push(bytes@).drop_last() =~= self@.fed);
            self.scan.follow(rows, cols, bytes);
        }
        process_chunk(&mut self.emulator, bytes);
    }

    /// The visible text.
    pub fn text(&self) -> (text: String)
        ensures
            text@ == self@.text(),
    {
        contents(&self.emulator)
    }
}

/// One cell of the screen.
fn cell_at(terminal: &Terminal, row: u16, col: u16) -> (cell: Cell)
    requires
        row < terminal@.rows,
        col < terminal@.cols,
    ensures
        cell@ == terminal@.cell(row, col),
{
    Cell {
        text: text_at(&terminal.emulator, row, col),
        foreground: foreground_at(&terminal.emulator, row, col),
        background: background_at(&terminal.emulator, row, col),
        style: Style {
            bold: bold_at(&terminal.emulator, row, col),
            dim: dim_at(&terminal.emulator, row, col),
            italic: italic_at(&terminal.emulator, row, col),
            underline: underline_at(&terminal.emulator, row, col),
            inverse: inverse_at(&terminal.emulator, row, col),
            wide: wide_at(&terminal.emulator, row, col),
            continuation: continuation_at(&terminal.emulator, row, col),
        },
    }
}

/// The visible screen as a frame.
pub fn from_screen(terminal: &Terminal) -> (frame: Frame)
    requires
        terminal@.cols > 0,
    ensures
        frame@ == terminal@.frame(),
{
    let (rows, cols): (u16, u16) = screen_size(&terminal.emulator);
    let mut cells: Vec<Cell> = Vec::new();
    let mut row: u16 = 0;
    while row < rows
        invariant
            row <= rows,
            rows == terminal@.rows,
            cols == terminal@.cols,
            cols > 0,
            cells@.len() == row * cols,
            forall|i: int|
                0 <= i < cells@.len() ==> (#[trigger] cells@[i])@ == terminal@.frame().cells[i],
        decreases rows - row,
    {
        let mut col: u16 = 0;
        while col < cols
            invariant
                row < rows,
                col <= cols,
                rows == terminal@.rows,
                cols == terminal@.cols,
                cols > 0,
                cells@.len() == row * cols + col,
                forall|i: int|
                    0 <= i < cells@.len() ==> (#[trigger] cells@[i])@ == terminal@.frame().cells[i],
            decreases cols - col,
        {
            proof {
                lemma_place(row as int, col as int, rows as int, cols as int);
            }
            cells.push(cell_at(terminal, row, col));
            col += 1;
        }
        proof {
            lemma_row_end(row as int, cols as int);
        }
        row += 1;
    }
    let cursor = if hides_cursor(&terminal.emulator) {
        None
    } else {
        let (row, col): (u16, u16) = cursor_position(&terminal.emulator);
        Some(Cursor { row, col })
    };
    let frame = Frame {
        version: FRAME_VERSION,
        cols,
        rows,
        foreground: DEFAULT_FOREGROUND,
        background: DEFAULT_BACKGROUND,
        cursor,
        cells,
    };
    assert(frame@.cells =~= terminal@.frame().cells);
    frame
}

/// The row and the column of a cell from its index.
proof fn lemma_place(row: int, col: int, rows: int, cols: int)
    requires
        0 <= row < rows,
        0 <= col < cols,
    ensures
        (row * cols + col) / cols == row,
        (row * cols + col) % cols == col,
        0 <= row * cols + col < rows * cols,
{
    vstd::arithmetic::div_mod::lemma_fundamental_div_mod_converse(
        row * cols + col,
        cols,
        row,
        col,
    );
    assert(row * cols + col < rows * cols) by (nonlinear_arith)
        requires
            0 <= row < rows,
            0 <= col < cols,
    ;
    assert(0 <= row * cols) by (nonlinear_arith)
        requires
            0 <= row,
            0 < cols,
    ;
}

proof fn lemma_row_end(row: int, cols: int)
    ensures
        row * cols + cols == (row + 1) * cols,
{
    assert(row * cols + cols == (row + 1) * cols) by (nonlinear_arith);
}

/// An emulator that takes some chunks takes them without the last one.
pub proof fn lemma_takes_fewer(rows: u16, cols: u16, chunks: Seq<Seq<u8>>, chunk: Seq<u8>)
    requires
        takes(rows, cols, chunks.push(chunk)),
    ensures
        takes(rows, cols, chunks),
{
    assert(chunks.push(chunk).drop_last() =~= chunks);
}

// -------------------------------------------------------------------- laws

/// A frame shows the screen cell by cell: there is a cell for every place, row by
/// row, with the text, the colours and the style that the emulator has there, and
/// the cursor is where the emulator has it, unless it is hidden.
pub proof fn law_frame_shows_every_cell(terminal: TerminalView, row: u16, col: u16)
    requires
        row < terminal.rows,
        col < terminal.cols,
    ensures
        ({
            let rows = terminal.rows;
            let cols = terminal.cols;
            let fed = terminal.fed;
            let frame = terminal.frame();
            let cell = frame.cells[row * cols + col];
            &&& frame.rows == rows && frame.cols == cols && frame.version == 1
            &&& frame.cells.len() == rows * cols
            &&& 0 <= row * cols + col < rows * cols
            &&& cell.text == cell_text(rows, cols, fed, row, col)
            &&& cell.foreground == cell_foreground(rows, cols, fed, row, col)
            &&& cell.background == cell_background(rows, cols, fed, row, col)
            &&& cell.style.bold == cell_bold(rows, cols, fed, row, col)
            &&& cell.style.dim == cell_dim(rows, cols, fed, row, col)
            &&& cell.style.italic == cell_italic(rows, cols, fed, row, col)
            &&& cell.style.underline == cell_underline(rows, cols, fed, row, col)
            &&& cell.style.inverse == cell_inverse(rows, cols, fed, row, col)
            &&& cell.style.wide == cell_wide(rows, cols, fed, row, col)
            &&& cell.style.continuation == cell_continuation(rows, cols, fed, row, col)
            &&& frame.foreground == Color::Default && frame.background == Color::Default
            &&& frame.cursor is Some <==> !cursor_hidden(rows, cols, fed)
            &&& frame.cursor matches Some(cursor) ==> (cursor.row, cursor.col) == cursor_place(
                rows,
                cols,
                fed,
            )
        }),
{
    lemma_place(row as int, col as int, terminal.rows as int, terminal.cols as int);
}

/// Output is shown in the order in which it comes: one more chunk stands behind
/// all others, and the size stays. The text of a terminal is that of its screen.
pub proof fn law_chunks_follow_each_other(terminal: TerminalView, chunk: Seq<u8>)
    ensures
        terminal.after(chunk).rows == terminal.rows,
        terminal.after(chunk).cols == terminal.cols,
        terminal.after(chunk).fed.len() == terminal.fed.len() + 1,
        terminal.after(chunk).fed.last() == chunk,
        terminal.after(chunk).fed.drop_last() == terminal.fed,
        terminal.takes(chunk) <==> takes(terminal.rows, terminal.cols, terminal.after(chunk).fed),
        terminal.text() == screen_contents(terminal.rows, terminal.cols, terminal.fed),
{
    assert(terminal.after(chunk).fed.drop_last() =~= terminal.fed);
}

} // verus!
