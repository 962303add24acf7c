//! The visible state of a terminal as plain values.

use vstd::prelude::*;
use vstd::string::*;
use crate::text::texts;

verus! {

/// A colour as a terminal program chooses it.
#[derive(Clone, Copy, Debug, PartialEq, Eq, Structural)]
pub enum Color {
    /// The terminal's own colour.
    Default,
    /// An entry of the terminal's palette.
    Idx(u8),
    /// Red, green and blue.
    Rgb(u8, u8, u8),
}

/// The colour of text that no program has coloured.
pub const DEFAULT_FOREGROUND: Color = Color::Default;

/// The colour behind text that no program has coloured.
pub const DEFAULT_BACKGROUND: Color = Color::Default;

/// The version of the frame layout.
pub const FRAME_VERSION: u8 = 1;

/// How the text of a cell is drawn.
#[derive(Clone, Copy, Debug, PartialEq, Eq, Structural)]
pub struct Style {
    pub bold: bool,
    pub dim: bool,
    pub italic: bool,
    pub underline: bool,
    pub inverse: bool,
    /// The text spans this cell and the next one.
    pub wide: bool,
    /// The text of the previous cell reaches into this one.
    pub continuation: bool,
}

/// One cell of the screen.
#[derive(Debug, PartialEq, Eq)]
pub struct Cell {
    pub text: String,
    pub foreground: Color,
    pub background: Color,
    pub style: Style,
}

/// A cell as a mathematical value.
pub struct CellView {
    pub text: Seq<char>,
    pub foreground: Color,
    pub background: Color,
    pub style: Style,
}

/// The place of the cursor, counted from the top left corner.
#[derive(Clone, Copy, Debug, PartialEq, Eq, Structural)]
pub struct Cursor {
    pub row: u16,
    pub col: u16,
}

/// A visible screen: its cells row by row, and the cursor where it is shown.
#[derive(Debug, PartialEq, Eq)]
pub struct Frame {
    pub version: u8,
    pub cols: u16,
    pub rows: u16,
    pub foreground: Color,
    pub background: Color,
    pub cursor: Option<Cursor>,
    pub cells: Vec<Cell>,
}

/// A frame as a mathematical value.
pub struct FrameView {
    pub version: u8,
    pub cols: u16,
    pub rows: u16,
    pub foreground: Color,
    pub background: Color,
    pub cursor: Option<Cursor>,
    pub cells: Seq<CellView>,
}

impl View for Cell {
    type V = CellView;

    open spec fn view(&self) -> CellView {
        CellView {
            text: self.text@,
            foreground: self.foreground,
            background: self.background,
            style: self.style,
        }
    }
}

impl View for Frame {
    type V = FrameView;

    open spec fn view(&self) -> FrameView {
        FrameView {
            version: self.version,
            cols: self.cols,
            rows: self.rows,
            foreground: self.foreground,
            background: self.background,
            cursor: self.cursor,
            cells: self.cells@.map_values(|cell: Cell| cell@),
        }
    }
}

/// The characters with the Unicode property White_Space.
pub open spec fn white_space(c: char) -> bool {
    ||| 0x09 <= c as int <= 0x0d
    ||| c as int == 0x20
    ||| c as int == 0x85
    ||| c as int == 0xa0
    ||| c as int == 0x1680
    ||| 0x2000 <= c as int <= 0x200a
    ||| c as int == 0x2028
    ||| c as int == 0x2029
    ||| c as int == 0x202f
    ||| c as int == 0x205f
    ||| c as int == 0x3000
}

/// Whether some character of a text is not white space.
pub open spec fn inked(text: Seq<char>) -> bool {
    exists|i: int| 0 <= i < text.len() && !white_space(#[trigger] text[i])
}

/// What a cell adds to the text of its row: a cell that shows nothing adds a
/// space, and one that the text of the previous cell reaches into adds nothing.
pub open spec fn cell_characters(cell: CellView) -> Seq<char> {
    if cell.style.continuation {
        Seq::empty()
    } else if cell.text.len() == 0 {
        seq![' ']
    } else {
        cell.text
    }
}

/// The text of some cells.
pub open spec fn characters(cells: Seq<CellView>) -> Seq<char>
    decreases cells.len(),
{
    if cells.len() == 0 {
        Seq::empty()
    } else {
        characters(cells.drop_last()) + cell_characters(cells.last())
    }
}

/// A text without the white space at its end.
pub open spec fn trimmed_end(text: Seq<char>) -> Seq<char>
    decreases text.len(),
{
    if text.len() > 0 && white_space(text.last()) {
        trimmed_end(text.drop_last())
    } else {
        text
    }
}

/// Some lines without the empty ones at their end.
pub open spec fn filled_lines(lines: Seq<Seq<char>>) -> Seq<Seq<char>>
    decreases lines.len(),
{
    if lines.len() > 0 && lines.last().len() == 0 {
        filled_lines(lines.drop_last())
    } else {
        lines
    }
}

/// Some lines as one text, with a line feed between two of them.
pub open spec fn joined_lines(lines: Seq<Seq<char>>) -> Seq<char>
    decreases lines.len(),
{
    if lines.len() == 0 {
        Seq::empty()
    } else if lines.len() == 1 {
        lines[0]
    } else {
        joined_lines(lines.drop_last()) + seq!['\n'] + lines.last()
    }
}

impl FrameView {
    /// The cells from the top left corner up to some place, as far as there are
    /// cells.
    pub open spec fn upto(self, row: int, col: int) -> int {
        if row * self.cols + col <= self.cells.len() {
            row * self.cols + col
        } else {
            self.cells.len() as int
        }
    }

    /// One row of the screen, without the white space at its end.
    pub open spec fn line(self, row: int) -> Seq<char> {
        trimmed_end(
            characters(self.cells.subrange(self.upto(row, 0), self.upto(row, self.cols as int))),
        )
    }

    /// The visible text: the rows down to the last one that shows something.
    pub open spec fn text(self) -> Seq<char> {
        joined_lines(filled_lines(Seq::new(self.rows as nat, |row: int| self.line(row))))
    }

    /// Some cell holds text that is not white space.
    pub open spec fn visible_content(self) -> bool {
        exists|i: int| 0 <= i < self.cells.len() && inked((#[trigger] self.cells[i]).text)
    }

    /// Some cell has a background of its own.
    pub open spec fn painted(self) -> bool {
        exists|i: int|
            0 <= i < self.cells.len() && (#[trigger] self.cells[i]).background != self.background
    }
}

/// Whether a character is white space.
pub fn is_white_space(c: char) -> (white: bool)
    ensures
        white == white_space(c),
{
    let n: u32 = c as u32;
    (0x09 <= n && n <= 0x0d) || n == 0x20 || n == 0x85 || n == 0xa0 || n == 0x1680 || (0x2000 <= n
        && n <= 0x200a) || n == 0x2028 || n == 0x2029 || n == 0x202f || n == 0x205f || n == 0x3000
}

/// Whether a text holds more than white space.
fn has_ink(text: &str) -> (found: bool)
    ensures
        found == inked(text@),
{
    let mut found: bool = false;
    for c in it: text.chars()
        invariant
            it.seq() == text@,
            found == (exists|i: int| 0 <= i < it.index() && !white_space(#[trigger] text@[i])),
    {
        let white = is_white_space(c);
        assert(c == text@[it.index() as int]);
        if !white {
            found = true;
        }
    }
    found
}

impl Cell {
    /// A copy of the cell.
    pub fn duplicate(&self) -> (copy: Cell)
        ensures
            copy@ == self@,
    {
        Cell {
            text: self.text.clone(),
            foreground: self.foreground,
            background: self.background,
            style: self.style,
        }
    }

    /// Whether two cells look the same.
    pub fn same(&self, other: &Cell) -> (same: bool)
        ensures
            same == (self@ == other@),
    {
        self.text == other.text && self.foreground == other.foreground && self.background
            == other.background && self.style == other.style
    }
}

impl Frame {
    /// Whether the screen shows any text; the cursor does not count.
    pub fn has_visible_content(&self) -> (visible: bool)
        ensures
            visible == self@.visible_content(),
    {
        let mut i: usize = 0;
        while i < self.cells.len()
            invariant
                i <= self.cells@.len(),
                forall|k: int| 0 <= k < i ==> !inked(#[trigger] self@.cells[k].text),
            decreases self.cells@.len() - i,
        {
            assert(self@.cells[i as int] == self.cells@[i as int]@);
            if has_ink(self.cells[i].text.as_str()) {
                return true;
            }
            i += 1;
        }
        false
    }

    /// Whether some cell has a background of its own.
    pub fn has_painted_background(&self) -> (painted: bool)
        ensures
            painted == self@.painted(),
    {
        let mut i: usize = 0;
        while i < self.cells.len()
            invariant
                i <= self.cells@.len(),
                forall|k: int|
                    0 <= k < i ==> (#[trigger] self@.cells[k]).background == self@.background,
            decreases self.cells@.len() - i,
        {
            assert(self@.cells[i as int] == self.cells@[i as int]@);
            if self.cells[i].background != self.background {
                return true;
            }
            i += 1;
        }
        false
    }

    /// A copy of the frame.
    pub fn duplicate(&self) -> (copy: Frame)
        ensures
            copy@ == self@,
    {
        let mut cells: Vec<Cell> = Vec::new();
        let mut i: usize = 0;
        while i < self.cells.len()
            invariant
                i <= self.cells@.len(),
                cells@.len() == i,
                forall|k: int| 0 <= k < i ==> (#[trigger] cells@[k])@ == self.cells@[k]@,
            decreases self.cells@.len() - i,
        {
            cells.push(self.cells[i].duplicate());
            i += 1;
        }
        let copy = Frame {
            version: self.version,
            cols: self.cols,
            rows: self.rows,
            foreground: self.foreground,
            background: self.background,
            cursor: self.cursor,
            cells,
        };
        assert(copy@.cells =~= self@.cells);
        copy
    }

    /// Whether two frames look the same.
    pub fn same(&self, other: &Frame) -> (same: bool)
        ensures
            same == (self@ == other@),
    {
        let cursors = match (self.cursor, other.cursor) {
            (None, None) => true,
            (Some(a), Some(b)) => a == b,
            _ => false,
        };
        if !cursors || self.version != other.version || self.cols != other.cols || self.rows
            != other.rows || self.foreground != other.foreground || self.background
            != other.background || self.cells.len() != other.cells.len() {
            assert(self@.cells.len() == self.cells@.len());
            assert(other@.cells.len() == other.cells@.len());
            return false;
        }
        let mut i: usize = 0;
        while i < self.cells.len()
            invariant
                i <= self.cells@.len(),
                self.cells@.len() == other.cells@.len(),
                forall|k: int| 0 <= k < i ==> (#[trigger] self.cells@[k])@ == other.cells@[k]@,
            decreases self.cells@.len() - i,
        {
            if !self.cells[i].same(&other.cells[i]) {
                assert(self@.cells[i as int] != other@.cells[i as int]);
                return false;
            }
            i += 1;
        }
        assert(self@.cells =~= other@.cells);
        true
    }
}

// -------------------------------------------------------------------- text

/// A text without the white space at its end.
fn trim_end(text: &str) -> (trimmed: &str)
    ensures
        trimmed@ == trimmed_end(text@),
{
    let mut kept: usize = text.unicode_len();
    assert(text@.take(kept as int) =~= text@);
    while kept > 0 && is_white_space(text.get_char(kept - 1))
        invariant
            kept <= text@.len(),
            trimmed_end(text@) == trimmed_end(text@.take(kept as int)),
        decreases kept,
    {
        kept -= 1;
        assert(text@.take(kept + 1).drop_last() =~= text@.take(kept as int));
    }
    text.substring_char(0, kept)
}

/// The first of some lines as one text.
fn join_lines(lines: &Vec<String>, count: usize) -> (text: String)
    requires
        count <= lines@.len(),
    ensures
        text@ == joined_lines(texts(lines@).take(count as int)),
{
    let ghost all = texts(lines@);
    let mut text = String::new();
    let mut i: usize = 0;
    proof {
        reveal_strlit("\n");
    }
    assert("\n"@ =~= seq!['\n']);
    assert(all.take(0) =~= Seq::<Seq<char>>::empty());
    while i < count
        invariant
            i <= count <= lines@.len(),
            "\n"@ == seq!['\n'],
            all == texts(lines@),
            text@ == joined_lines(all.take(i as int)),
        decreases count - i,
    {
        assert(all.take(i + 1).drop_last() =~= all.take(i as int));
        assert(all.take(i + 1).last() == lines@[i as int]@);
        if i > 0 {
            text.append("\n");
        }
        text.append(lines[i].as_str());
        if i == 0 {
            assert(text@ =~= all[0]);
        }
        i += 1;
    }
    text
}

impl Frame {
    /// One row of the screen, from its first cell.
    fn line_from(&self, row: u16, start: usize) -> (line: (String, usize))
        requires
            row < self.rows,
            start == self@.upto(row as int, 0),
        ensures
            line.0@ == self@.line(row as int),
            line.1 == self@.upto(row + 1, 0),
    {
        let ghost cells = self@.cells;
        let mut whole = String::new();
        let mut at: usize = start;
        let mut col: u16 = 0;
        assert(cells.subrange(start as int, at as int) =~= Seq::<CellView>::empty());
        while col < self.cols
            invariant
                col <= self.cols,
                row < self.rows,
                cells == self@.cells,
                start == self@.upto(row as int, 0),
                at == self@.upto(row as int, col as int),
                start <= at <= cells.len(),
                whole@ == characters(cells.subrange(start as int, at as int)),
            decreases self.cols - col,
        {
            if at < self.cells.len() {
                let cell = &self.cells[at];
                let ghost before = cells.subrange(start as int, at as int);
                let ghost after = cells.subrange(start as int, at + 1);
                assert(after.drop_last() =~= before);
                assert(after.last() == cell@);
                if !cell.style.continuation {
                    if cell.text.as_str().is_empty() {
                        proof {
                            reveal_strlit(" ");
                        }
                        whole.append(" ");
                        assert(" "@ =~= seq![' ']);
                    } else {
                        whole.append(cell.text.as_str());
                    }
                } else {
                    assert(whole@ =~= whole@ + Seq::<char>::empty());
                }
                at += 1;
            }
            col += 1;
        }
        assert((row + 1) * self.cols == row * self.cols + self.cols) by (nonlinear_arith);
        (trim_end(whole.as_str()).to_owned(), at)
    }

    /// The visible text: each row without the white space at its end, down to
    /// the last row that shows something.
    pub fn text(&self) -> (text: String)
        ensures
            text@ == self@.text(),
    {
        let ghost lines = Seq::new(self.rows as nat, |row: int| self@.line(row));
        let mut rows: Vec<String> = Vec::new();
        let mut filled: usize = 0;
        let mut at: usize = 0;
        let mut row: u16 = 0;
        assert(lines.take(0) =~= Seq::<Seq<char>>::empty());
        assert(0 * self.cols == 0) by (nonlinear_arith);
        while row < self.rows
            invariant
                row <= self.rows,
                lines == Seq::new(self.rows as nat, |row: int| self@.line(row)),
                at == self@.upto(row as int, 0),
                rows@.len() == row,
                forall|i: int| 0 <= i < row ==> (#[trigger] rows@[i])@ == lines[i],
                filled <= row,
                filled_lines(lines.take(row as int)) == lines.take(filled as int),
            decreases self.rows - row,
        {
            let (line, next) = self.line_from(row, at);
            at = next;
            assert(lines.take(row + 1).drop_last() =~= lines.take(row as int));
            assert(lines.take(row + 1).last() == line@);
            if !line.as_str().is_empty() {
                filled = row as usize + 1;
            }
            rows.push(line);
            row += 1;
        }
        assert(lines.take(self.rows as int) =~= lines);
        assert(texts(rows@) =~= lines);
        join_lines(&rows, filled)
    }
}

// -------------------------------------------------------------------- laws

/// The character that a cell of one column shows: a blank where it holds none.
pub open spec fn shown_in(cell: CellView) -> char {
    if cell.text.len() == 0 {
        ' '
    } else {
        cell.text[0]
    }
}

/// Whether every cell is one column wide and holds one character at most.
pub open spec fn one_column_each(cells: Seq<CellView>) -> bool {
    forall|i: int|
        0 <= i < cells.len() ==> !(#[trigger] cells[i]).style.continuation && cells[i].text.len()
            <= 1
}

/// A row reads from left to right: the text of two runs of cells is that of the
/// first and then that of the second. A cell alone gives its text, a blank where
/// it holds none, and nothing where the cell before it reaches into it.
pub proof fn law_row_reads_from_left_to_right(
    left: Seq<CellView>,
    right: Seq<CellView>,
    cell: CellView,
)
    ensures
        characters(left + right) == characters(left) + characters(right),
        cell.style.continuation ==> characters(seq![cell]).len() == 0,
        !cell.style.continuation && cell.text.len() == 0 ==> characters(seq![cell]) == seq![' '],
        !cell.style.continuation && cell.text.len() > 0 ==> characters(seq![cell]) == cell.text,
    decreases right.len(),
{
    reveal_with_fuel(characters, 2);
    assert(seq![cell].drop_last() =~= Seq::<CellView>::empty());
    assert(characters(seq![cell]) =~= cell_characters(cell));
    if right.len() == 0 {
        assert(left + right =~= left);
        assert(characters(left) + characters(right) =~= characters(left));
    } else {
        law_row_reads_from_left_to_right(left, right.drop_last(), cell);
        assert((left + right).drop_last() =~= left + right.drop_last());
        assert(characters(left + right) =~= characters(left) + characters(right));
    }
}

/// Columns stay in place: where every cell is one column wide, the text of a row
/// has a character for every cell, and what a cell shows stands in its column, a
/// blank where it shows nothing.
pub proof fn law_columns_stay_in_place(cells: Seq<CellView>)
    requires
        one_column_each(cells),
    ensures
        characters(cells).len() == cells.len(),
        forall|c: int|
            0 <= c < cells.len() ==> #[trigger] characters(cells)[c] == if cells[c].text.len()
                == 0 {
                ' '
            } else {
                cells[c].text[0]
            },
    decreases cells.len(),
{
    if cells.len() > 0 {
        let before = cells.drop_last();
        assert forall|i: int| 0 <= i < before.len() implies !(
        #[trigger] before[i]).style.continuation && before[i].text.len() <= 1 by {
            assert(before[i] == cells[i]);
        }
        law_columns_stay_in_place(before);
        let last = cells[cells.len() - 1];
        assert(cell_characters(last).len() == 1);
        assert forall|c: int| 0 <= c < cells.len() implies #[trigger] characters(cells)[c]
            == shown_in(cells[c]) by {
            if c < before.len() {
                assert(characters(cells)[c] == characters(before)[c]);
                assert(before[c] == cells[c]);
            }
        }
    }
}

/// Only white space is lost at the end of a line, and all of it.
pub proof fn law_only_white_space_is_trimmed(text: Seq<char>)
    ensures
        trimmed_end(text).len() <= text.len(),
        forall|i: int| 0 <= i < trimmed_end(text).len() ==> #[trigger] trimmed_end(text)[i] == text[i],
        forall|i: int|
            trimmed_end(text).len() <= i < text.len() ==> white_space(#[trigger] text[i]),
        trimmed_end(text).len() > 0 ==> !white_space(text[trimmed_end(text).len() - 1]),
    decreases text.len(),
{
    if text.len() > 0 && white_space(text.last()) {
        let shorter = text.drop_last();
        law_only_white_space_is_trimmed(shorter);
        assert forall|i: int| trimmed_end(text).len() <= i < text.len() implies white_space(
            #[trigger] text[i],
        ) by {
            if i < shorter.len() {
                assert(shorter[i] == text[i]);
            }
        }
        assert forall|i: int| 0 <= i < trimmed_end(text).len() implies #[trigger] trimmed_end(
            text,
        )[i] == text[i] by {
            assert(shorter[i] == text[i]);
        }
    }
}

/// Only empty lines are lost at the end of a text, and all of them.
pub proof fn law_only_empty_lines_are_dropped(lines: Seq<Seq<char>>)
    ensures
        filled_lines(lines).len() <= lines.len(),
        forall|i: int| 0 <= i < filled_lines(lines).len() ==> #[trigger] filled_lines(lines)[i] == lines[i],
        forall|i: int|
            filled_lines(lines).len() <= i < lines.len() ==> (#[trigger] lines[i]).len() == 0,
        filled_lines(lines).len() > 0 ==> lines[filled_lines(lines).len() - 1].len() > 0,
    decreases lines.len(),
{
    if lines.len() > 0 && lines.last().len() == 0 {
        let fewer = lines.drop_last();
        law_only_empty_lines_are_dropped(fewer);
        assert forall|i: int| filled_lines(lines).len() <= i < lines.len() implies (
        #[trigger] lines[i]).len() == 0 by {
            if i < fewer.len() {
                assert(fewer[i] == lines[i]);
            }
        }
        assert forall|i: int| 0 <= i < filled_lines(lines).len() implies #[trigger] filled_lines(
            lines,
        )[i] == lines[i] by {
            assert(fewer[i] == lines[i]);
        }
    }
}

/// Lines are joined by line feeds alone: none is changed, and one line feed
/// stands between two of them.
pub proof fn law_lines_are_joined_by_line_feeds(
    first: Seq<Seq<char>>,
    second: Seq<Seq<char>>,
    line: Seq<char>,
)
    ensures
        joined_lines(Seq::empty()).len() == 0,
        joined_lines(seq![line]) == line,
        first.len() > 0 && second.len() > 0 ==> joined_lines(first + second) == joined_lines(first)
            + seq!['\n'] + joined_lines(second),
    decreases second.len(),
{
    if first.len() > 0 && second.len() == 1 {
        assert((first + second).drop_last() =~= first);
        assert(joined_lines(second) == second.last());
    } else if first.len() > 0 && second.len() > 1 {
        let fewer = second.drop_last();
        law_lines_are_joined_by_line_feeds(first, fewer, line);
        assert((first + second).drop_last() =~= first + fewer);
        assert(joined_lines(first + second) =~= joined_lines(first) + seq!['\n'] + joined_lines(
            second,
        ));
    }
}

/// The text of a screen keeps every character in its row and column: where every
/// cell is one column wide, a row shows at each column what the cell there shows,
/// up to its last character that is not white space, and from there on the cells
/// show white space only.
pub proof fn law_text_keeps_rows_and_columns(frame: FrameView, row: int)
    requires
        0 <= row < frame.rows,
        frame.cells.len() == frame.rows * frame.cols,
        one_column_each(frame.cells),
    ensures
        frame.line(row).len() <= frame.cols,
        forall|col: int|
            0 <= col < frame.line(row).len() ==> #[trigger] frame.line(row)[col] == shown_in(
                frame.cells[row * frame.cols + col],
            ),
        forall|col: int|
            frame.line(row).len() <= col < frame.cols ==> white_space(
                shown_in(#[trigger] frame.cells[row * frame.cols + col]),
            ),
        frame.line(row).len() > 0 ==> !white_space(
            shown_in(frame.cells[row * frame.cols + frame.line(row).len() - 1]),
        ),
{
    let start = row * frame.cols;
    assert(start + frame.cols <= frame.rows * frame.cols && start >= 0) by (nonlinear_arith)
        requires
            start == row * frame.cols,
            0 <= row < frame.rows,
    ;
    let cells = frame.cells.subrange(start, start + frame.cols);
    assert(frame.upto(row, 0) == start);
    assert(frame.upto(row, frame.cols as int) == start + frame.cols);
    assert forall|i: int| 0 <= i < cells.len() implies !(#[trigger] cells[i]).style.continuation
        && cells[i].text.len() <= 1 by {
        assert(cells[i] == frame.cells[start + i]);
    }
    law_columns_stay_in_place(cells);
    law_only_white_space_is_trimmed(characters(cells));
    let whole = characters(cells);
    assert forall|col: int| 0 <= col < frame.line(row).len() implies #[trigger] frame.line(row)[col]
        == shown_in(frame.cells[row * frame.cols + col]) by {
        assert(whole[col] == shown_in(cells[col]));
    }
    assert forall|col: int| frame.line(row).len() <= col < frame.cols implies white_space(
        shown_in(#[trigger] frame.cells[row * frame.cols + col]),
    ) by {
        assert(white_space(whole[col]));
        assert(cells[col] == frame.cells[start + col]);
    }
    if frame.line(row).len() > 0 {
        let col = frame.line(row).len() - 1;
        assert(whole[col] == shown_in(cells[col]));
        assert(cells[col] == frame.cells[start + col]);
    }
}

/// The text of a screen is its rows from the top, down to the last one that is
/// not blank, with a line feed between two of them.
pub proof fn law_text_goes_down_to_the_last_row_that_shows_something(frame: FrameView)
    ensures
        exists|lines: Seq<Seq<char>>| #[trigger]
            joined_lines(lines) == frame.text() && lines.len() <= frame.rows && (forall|row: int|
                0 <= row < lines.len() ==> #[trigger] lines[row] == frame.line(row)) && (lines.len()
                > 0 ==> lines.last().len() > 0) && (forall|row: int|
                lines.len() <= row < frame.rows ==> (#[trigger] frame.line(row)).len() == 0),
{
    let all = Seq::new(frame.rows as nat, |row: int| frame.line(row));
    law_only_empty_lines_are_dropped(all);
    let lines = filled_lines(all);
    assert(joined_lines(lines) == frame.text());
    assert forall|row: int| 0 <= row < lines.len() implies #[trigger] lines[row] == frame.line(
        row,
    ) by {
        assert(all[row] == frame.line(row));
    }
    assert forall|row: int| lines.len() <= row < frame.rows implies (#[trigger] frame.line(
        row,
    )).len() == 0 by {
        assert(all[row].len() == 0);
    }
}

/// A screen has visible content where some cell holds a character that is not
/// white space, whatever the cursor and the colours are, and it is painted where
/// some cell has another background than the screen, whatever it holds.
pub proof fn law_what_makes_a_screen_visible(frame: FrameView)
    ensures
        frame.visible_content() <==> exists|i: int, k: int|
            0 <= i < frame.cells.len() && 0 <= k < frame.cells[i].text.len() && !white_space(
                #[trigger] frame.cells[i].text[k],
            ),
        frame.painted() <==> exists|i: int|
            0 <= i < frame.cells.len() && #[trigger] frame.cells[i].background != frame.background,
{
    if frame.visible_content() {
        let i = choose|i: int|
            0 <= i < frame.cells.len() && inked((#[trigger] frame.cells[i]).text);
        let text = frame.cells[i].text;
        let k = choose|k: int| 0 <= k < text.len() && !white_space(#[trigger] text[k]);
        assert(!white_space(frame.cells[i].text[k]));
    }
    if exists|i: int, k: int|
        0 <= i < frame.cells.len() && 0 <= k < frame.cells[i].text.len() && !white_space(
            #[trigger] frame.cells[i].text[k],
        ) {
        let (i, k) = choose|i: int, k: int|
            0 <= i < frame.cells.len() && 0 <= k < frame.cells[i].text.len() && !white_space(
                #[trigger] frame.cells[i].text[k],
            );
        assert(inked(frame.cells[i].text));
    }
}

/// The value of a frame holds everything that the frame does, each cell in its
/// place.
pub proof fn law_frame_value_is_complete(frame: Frame, i: int)
    requires
        0 <= i < frame.cells@.len(),
    ensures
        frame@.cells.len() == frame.cells@.len(),
        frame@.cells[i].text == frame.cells@[i].text@,
        frame@.cells[i].foreground == frame.cells@[i].foreground,
        frame@.cells[i].background == frame.cells@[i].background,
        frame@.cells[i].style == frame.cells@[i].style,
        frame@.version == frame.version && frame@.cols == frame.cols && frame@.rows == frame.rows,
        frame@.foreground == frame.foreground && frame@.background == frame.background,
        frame@.cursor == frame.cursor,
{
}

/// A row is made of its own cells and of no others: of as many as a row has
/// columns, counted from the top left corner, as far as there are cells.
pub proof fn law_row_is_made_of_its_own_cells(frame: FrameView, row: int)
    requires
        0 <= row,
    ensures
        ({
            let n = frame.cells.len() as int;
            let from = if row * frame.cols < n { row * frame.cols } else { n };
            let to = if row * frame.cols + frame.cols < n {
                row * frame.cols + frame.cols
            } else {
                n
            };
            frame.line(row) == trimmed_end(characters(frame.cells.subrange(from, to)))
        }),
{
}

} // verus!
