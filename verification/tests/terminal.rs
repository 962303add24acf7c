use cellshot::capture::ansi;
use cellshot::frame::{Color, Cursor, Frame};
use cellshot::terminal::{from_screen, is_roomy, terminal};

fn screen(bytes: &[u8], rows: u16, cols: u16) -> Frame {
    ansi(bytes.to_vec(), rows, cols, 1024).unwrap().frame
}

#[test]
fn plain_text_of_a_coloured_line() {
    let captured = ansi(b"\x1b[32mready\x1b[0m".to_vec(), 1, 20, 1024).unwrap();
    assert_eq!(captured.frame.text(), "ready");
    assert_eq!(captured.ansi, b"\x1b[32mready\x1b[0m");
    assert_eq!(captured.frame.cells[0].foreground, Color::Idx(2));
    assert_eq!(captured.frame.cells[5].foreground, Color::Default);
    assert_eq!(captured.frame.version, 1);
}

#[test]
fn cells_lie_row_by_row() {
    let frame = screen(b"ab\r\n c", 2, 3);
    let texts: Vec<&str> = frame.cells.iter().map(|cell| cell.text.as_str()).collect();
    assert_eq!(texts, ["a", "b", "", " ", "c", ""]);
    assert_eq!((frame.rows, frame.cols), (2, 3));
    assert_eq!(frame.cursor, Some(Cursor { row: 1, col: 2 }));
}

#[test]
fn colours_and_styles_of_cells() {
    let frame = screen(b"\x1b[1;3;4;38;2;1;2;3;48;5;200mA\x1b[0;2;7mB\x1b[0mC", 2, 10);
    let first = &frame.cells[0];
    assert_eq!(first.foreground, Color::Rgb(1, 2, 3));
    assert_eq!(first.background, Color::Idx(200));
    assert!(first.style.bold && first.style.italic && first.style.underline);
    assert!(!first.style.dim && !first.style.inverse);
    let second = &frame.cells[1];
    assert_eq!((second.foreground, second.background), (Color::Default, Color::Default));
    assert!(second.style.dim && second.style.inverse && !second.style.bold);
    let third = &frame.cells[2];
    assert!(!third.style.dim && !third.style.inverse && !third.style.wide);
}

#[test]
fn wide_characters_reach_into_the_next_cell() {
    let frame = screen("\u{4e2d}x".as_bytes(), 2, 10);
    assert_eq!(frame.cells[0].text, "\u{4e2d}");
    assert!(frame.cells[0].style.wide && !frame.cells[0].style.continuation);
    assert!(frame.cells[1].style.continuation && !frame.cells[1].style.wide);
    assert_eq!(frame.cells[2].text, "x");
    assert_eq!(frame.text(), "\u{4e2d}x");
}

#[test]
fn hidden_cursor_is_not_shown() {
    assert_eq!(screen(b"\x1b[?25lx", 2, 10).cursor, None);
    assert_eq!(screen(b"\x1b[?25l\x1b[?25hx", 2, 10).cursor, Some(Cursor { row: 0, col: 1 }));
}

#[test]
fn text_drops_what_is_blank_at_the_end() {
    assert_eq!(screen(b"Ready  \r\n\r\nChoose an option\r\n \r\n", 8, 30).text(), "Ready\n\nChoose an option");
    assert_eq!(screen(b"", 4, 10).text(), "");
    assert_eq!(screen(b"\r\n  x", 4, 10).text(), "\n  x");
}

#[test]
fn text_of_a_frame_with_missing_cells() {
    let mut frame = screen(b"ab\r\ncd", 2, 3);
    frame.cells.truncate(4);
    assert_eq!(frame.text(), "ab\nc");
    frame.cells.truncate(0);
    assert_eq!(frame.text(), "");
}

#[test]
fn chunks_are_shown_one_after_the_other() {
    let mut live = terminal(4, 10);
    assert_eq!(live.text(), "");
    live.process(b"\x1b[3");
    live.process(b"1mred");
    live.process(b"\r\nnext");
    assert_eq!(live.text(), "red\nnext");
    let frame = from_screen(&live);
    assert_eq!(frame.cells[0].foreground, Color::Idx(1));
    assert_eq!(frame.text(), "red\nnext");
}

#[test]
fn small_terminals_take_what_fits_on_one_line() {
    assert!(is_roomy(2, 3));
    assert!(!is_roomy(1, 80));
    assert!(!is_roomy(24, 2));
    assert!(!is_roomy(24, 65528));
    let mut small = terminal(1, 5);
    assert!(small.takes(b"\x1b[1;32m12345\x1b[0m\r\n"));
    assert!(!small.takes(b"123456"));
    assert!(small.takes(b"\t"));
    assert!(small.takes(b"\x1b[5C1"));
    assert!(!small.takes(b"\x1b[5C12"));
    assert!(small.takes("\u{4e2d}\u{4e2d}1".as_bytes()));
    assert!(!small.takes("\u{4e2d}\u{4e2d}\u{4e2d}".as_bytes()));
    small.process(b"123");
    assert!(small.takes(b"45"));
    assert!(!small.takes(b"456"));
    assert!(small.takes(b"\r456"));
    small.process(b"\x1b[");
    assert!(small.takes(b"0m45"));
    assert!(small.takes(b"H12345"));
    assert!(!small.takes(b"C45"));
    small.process(b"0m45");
    assert_eq!(small.text(), "12345");
    let large = terminal(2, 3);
    assert!(large.takes("\x1b[5C\t123456789\u{4e2d}".as_bytes()));
}

/// What one row of five columns is fed, and the text that it shows.
fn row_of_five(chunks: &[&[u8]]) -> String {
    let mut row = terminal(1, 5);
    for chunk in chunks {
        assert!(row.takes(chunk), "{chunk:?}");
        row.process(chunk);
    }
    row.text()
}

#[test]
fn what_neither_prints_nor_moves_is_taken() {
    let silent: [&[u8]; 14] = [
        b"\x1b[2K",
        b"\x1b[K",
        b"\x1b[2J",
        b"\x1b[?25l",
        b"\x1b[?2004h",
        b"\x07",
        b"\x1b]0;a long title\x07",
        b"\x1b]0;a long title\x1b\\",
        b"\x1bPq a device string\x1b\\",
        b"\x1b_a note that is skipped\x1b\\",
        b"\x1b[38;2;1;2;3m",
        b"\x1b(B",
        b"\x1b[6n",
        b"\xff\x80\xc3",
    ];
    for bytes in silent {
        row_of_five(&[b"1234", bytes, b"5"]);
    }
    assert_eq!(row_of_five(&[b"1234\x1b[?25l5"]), "12345");
}

#[test]
fn lines_can_be_rewritten() {
    assert_eq!(row_of_five(&[b"123", b"\r456"]), "456");
    assert_eq!(row_of_five(&[b"12345\r67890\rabcde"]), "abcde");
    assert_eq!(row_of_five(&[b"12345\x08\x08xy"]), "123xy");
    assert_eq!(row_of_five(&[b"12345\x1b[2G--"]), "1--45");
    assert_eq!(row_of_five(&[b"12345\x1b[1;3H--"]), "12--5");
    assert_eq!(row_of_five(&[b"12345\x1b[H\x1b[K\x1b[2C-"]), "  -");
    assert_eq!(row_of_five(&[b"12345\x1b[4Dab"]), "1ab45");
    assert_eq!(row_of_five(&[b"12\x1b7345\x1b8--"]), "12--5");
    assert_eq!(row_of_five(&[b"123\x1b[?1049hhello\x1b[?1049l45"]), "12345");
    assert_eq!(row_of_five(&[b"123\x1b[?47hab\x1b[?47l45"]), "12345");
    assert_eq!(row_of_five(&[b"12345\x1bcabcde"]), "abcde");
    assert_eq!(row_of_five(&[b"\tx"]), "    x");
}

#[test]
fn letters_take_their_columns() {
    assert_eq!(row_of_five(&["h\u{e9}l\u{142}\u{2500}".as_bytes()]), "h\u{e9}l\u{142}\u{2500}");
    assert_eq!(row_of_five(&["\u{2713}e\u{301}\u{e0b0}\u{28ff}x".as_bytes()]), "\u{2713}e\u{301}\u{e0b0}\u{28ff}x");
    assert_eq!(row_of_five(&[b"\xc3", b"\xa9\xe2\x94", b"\x80"]), "\u{e9}\u{2500}");
    let row = terminal(1, 5);
    assert!(!row.takes("\u{e9}\u{e9}\u{e9}\u{e9}\u{e9}\u{e9}".as_bytes()));
    let narrow = terminal(4, 1);
    assert!(narrow.takes(b"many letters"));
    assert!(!narrow.takes("\u{4e2d}".as_bytes()));
    let mut pair = terminal(4, 2);
    assert!(pair.takes("\u{4e2d}\u{6587}".as_bytes()));
    pair.process("\u{4e2d}\u{6587}ab".as_bytes());
    assert_eq!(from_screen(&pair).text(), "\u{4e2d}\n\u{6587}\nab");
}

#[test]
fn ascii_bytes_behind_a_cut_letter_can_be_lost() {
    let cut = |next: &[u8]| {
        let mut row = terminal(1, 5);
        row.process(b"123\xc3");
        if row.takes(next) {
            row.process(next);
            Some(row.text())
        } else {
            None
        }
    };
    assert_eq!(cut(b"\xa9\r\xc3\xa9").as_deref(), Some("123\u{e9}\u{e9}"));
    assert_eq!(cut(b"\xa9\r\xc3\xa9x"), None);
    assert_eq!(cut(b"\xa9a\xc3\xa9").as_deref(), Some("123\u{e9}\u{e9}"));
    assert_eq!(cut(b"\xa9\x1b\xc3\xa9").as_deref(), Some("123\u{e9}\u{e9}"));
    assert_eq!(cut(b"\xa9\rabcde").as_deref(), Some("abcde"));
    assert_eq!(cut(b"\xa9a").as_deref(), Some("123\u{e9}a"));
    assert_eq!(cut(b"\xa9ab"), None);
    let mut row = terminal(1, 5);
    row.process(b"123\xc3");
    row.process(b"\xa9");
    assert!(row.takes(b"\r\xc3\xa9"));
    row.process(b"\r\xc3\xa9");
    assert_eq!(row.text(), "\u{e9}23\u{e9}");
}

#[test]
fn broken_letters_show_nothing() {
    for bytes in [
        b"\xe0\x9f\xbf".as_slice(),
        b"\xed\xa0\x80",
        b"\xf0\x8f\xbf\xbf",
        b"\xf4\x90\x80\x80",
        b"\xc1\xbf",
        b"\xf5\x80\x80\x80",
        b"\xe2\x82",
        b"\xc2\x9b",
        b"\xef\xbf\xbd",
    ] {
        assert_eq!(row_of_five(&[b"1234", bytes, bytes, b"5"]), "12345");
    }
}

#[test]
fn pairs_of_columns_hold_what_fits() {
    let mut pair = terminal(1, 2);
    assert!(pair.takes("\u{26a0}x".as_bytes()));
    assert!(!pair.takes("\u{26a0}xx".as_bytes()));
    assert!(pair.takes(b"\x1b[?25;6h "));
    assert!(!pair.takes("\u{17d8}".as_bytes()));
    pair.process("\u{26a0}x".as_bytes());
    assert_eq!(pair.text(), "\u{26a0}x");
    assert!(!pair.takes(b"y"));
    assert!(pair.takes(b"\x1b[?25;6hyz"));
    let triple = terminal(1, 3);
    assert!(triple.takes("\u{17d8}a".as_bytes()));
    assert!(!triple.takes("\u{17d8}ab".as_bytes()));
    assert!(!triple.takes("a\u{17d8}".as_bytes()));
}

#[test]
fn only_so_many_numbers_of_a_control_sequence_are_kept() {
    let ones = |count: usize| "1;".repeat(count);
    let room = |sequence: String| {
        let mut row = terminal(1, 5);
        row.process(b"12345");
        row.process(sequence.as_bytes());
        row.takes(b"x")
    };
    assert!(room(format!("\x1b[?{}47h", ones(31))));
    assert!(!room(format!("\x1b[?{}47h", ones(32))));
    assert!(room(format!("\x1b[?{}47:5h", ones(31))));
    assert!(!room(format!("\x1b[?{}47:5h", ones(30))));
    assert!(room("\x1b[?25;47h".to_owned()));
    assert!(!room("\x1b[?25:47h".to_owned()));
    assert!(!room("\x1b[?47;47l".to_owned()));
}

#[test]
fn characters_take_the_columns_that_they_are_drawn_in() {
    let one = terminal(1, 1);
    let two = terminal(1, 2);
    let mut row = terminal(1, 4);
    for code in (0xa0..0x20000u32).chain(0xe0000..0xe1000).chain((0x20000..=0x10ffff).step_by(61)) {
        let Some(c) = char::from_u32(code) else { continue };
        let joined = format!("x{c}");
        let width = if one.takes(joined.as_bytes()) {
            0
        } else if one.takes(joined[1..].as_bytes()) {
            1
        } else if two.takes(joined[1..].as_bytes()) {
            2
        } else {
            assert_eq!(c, '\u{17d8}');
            2
        };
        row.process(format!("\r{c}").as_bytes());
        assert_eq!(from_screen(&row).cursor, Some(Cursor { row: 0, col: width }), "{code:x}");
    }
}

#[test]
fn wide_terminals_take_tabs_that_are_not_at_the_end() {
    let mut wide = terminal(2, 65535);
    wide.process(b"a\tb");
    assert!(wide.takes(b"\x1b[65528G\t"));
    assert!(!wide.takes(b"\x1b[65529G\t"));
    assert!(wide.takes(b"\x1b[65529G\r\t"));
    assert!(!wide.takes(b"\x1b[65535Gx\t"));
    assert!(wide.takes(b"\x1b[65535Gxy\t"));
    wide.process(b"\x1b[65535Gxy\t");
    assert_eq!(from_screen(&wide).cursor, Some(Cursor { row: 1, col: 8 }));
}

#[test]
fn smallest_terminal_shows_one_character() {
    assert_eq!(screen(b"x", 1, 1).text(), "x");
    assert_eq!(screen(b"xy\r\n", 3, 2).text(), "xy");
}

#[test]
fn visible_content_and_painted_backgrounds() {
    let blank = screen(b"  \x1b[31m \x1b[0m", 2, 10);
    assert!(!blank.has_visible_content());
    assert!(!blank.has_painted_background());
    let painted = screen(b"\x1b[44m \x1b[0m", 2, 10);
    assert!(!painted.has_visible_content());
    assert!(painted.has_painted_background());
    let text = screen(b"\r\n    x", 2, 10);
    assert!(text.has_visible_content());
    assert!(!text.has_painted_background());
    assert!(!screen("\u{3000}".as_bytes(), 2, 10).has_visible_content());
}

#[test]
fn white_space_is_what_unicode_says() {
    for code in 0..=0x10ffffu32 {
        if let Some(c) = char::from_u32(code) {
            assert_eq!(cellshot::frame::is_white_space(c), c.is_whitespace());
        }
    }
}

#[test]
fn frames_are_compared_by_what_they_show() {
    let frame = screen(b"\x1b[1mab", 2, 4);
    assert!(frame.same(&frame.duplicate()));
    assert_eq!(frame, frame.duplicate());
    assert!(!frame.same(&screen(b"ab", 2, 4)));
    assert!(!frame.same(&screen(b"\x1b[1mab\r", 2, 4)));
    assert!(!frame.same(&screen(b"\x1b[1mab\x1b[?25l", 2, 4)));
    assert!(!frame.same(&screen(b"\x1b[1mab", 2, 5)));
    assert!(frame.same(&screen(b"\x1b[1mab\x1b[0m", 2, 4)));
}

/// Numbers that look random, the same in every run.
struct Numbers(u64);

impl Numbers {
    fn below(&mut self, limit: usize) -> usize {
        self.0 ^= self.0 << 13;
        self.0 ^= self.0 >> 7;
        self.0 ^= self.0 << 17;
        (self.0 % limit as u64) as usize
    }
}

#[test]
fn whatever_is_taken_is_drawn() {
    let pieces: [&[u8]; 72] = [
        b"a", b"bc", b"xyz", b" ", b"\r", b"\n", b"\t", b"\x08", b"\x0b", b"\x07", b"\x7f", b"\x0e",
        b"\x1b", b"\x1b[", b"\x1b7", b"\x1b8", b"\x1bc", b"\x1bM", b"\x1b=", b"\x1b(B", b"\x1b]0;t\x07",
        b"\x1b]2", b"\x1b\\", b"\x1bP1q", b"\x1b_n", b"\x9c", b"\x18", b"\x1a", b"\x1b[H", b"\x1b[2;3H",
        b"\x1b[9C", b"\x1b[D", b"\x1b[2G", b"\x1b[3E", b"\x1b[F", b"\x1b[d", b"\x1b[2J", b"\x1b[K",
        b"\x1b[2@", b"\x1b[P", b"\x1b[3X", b"\x1b[2L", b"\x1b[M", b"\x1b[S", b"\x1b[T", b"\x1b[1;1r",
        b"\x1b[?6h", b"\x1b[?47h", b"\x1b[?47l", b"\x1b[?1049h", b"\x1b[?1049l", b"\x1b[99999C",
        "\u{e9}".as_bytes(), "\u{4e2d}".as_bytes(), "\u{301}".as_bytes(), "\u{1f600}".as_bytes(),
        b"\xc3", b"\xa9", "\u{17d8}".as_bytes(), "\u{26a0}".as_bytes(), "\u{fffd}".as_bytes(), b"\xe0\x9f",
        b"\x1b[?6;47h", b"\x1b[?1049;6l", b"\x1b[?1;1049h", b"\x1b[?47:6h", b"\x1b[1:9;3H", b"\x1b[;4H",
        b"\x1b[?1;1;1;1;1;1;1;1;1;1;1;1;1;1;1;1;1;1;1;1;1;1;1;1;1;1;1;1;1;1;1;1;47h",
        b"\x1b[?1;1;1;1;1;1;1;1;1;1;1;1;1;1;1;1;1;1;1;1;1;1;1;1;1;1;1;1;1;1;1;47:6h", b"\xed\xa0", b"\xc3\xa9",
    ];
    let sizes = [(1, 1), (1, 2), (1, 3), (1, 5), (1, 9), (2, 1), (3, 1), (2, 2), (5, 2), (2, 3), (3, 12)];
    let mut numbers = Numbers(0x9e37_79b9_7f4a_7c15);
    let mut taken = 0;
    let mut compared = 0;
    for round in 0..30_000 {
        let (rows, cols) = sizes[round % sizes.len()];
        let mut screen = terminal(rows, cols);
        for _ in 0..numbers.below(12) {
            let mut chunk = Vec::new();
            for _ in 0..1 + numbers.below(6) {
                if numbers.below(8) == 0 {
                    chunk.push(numbers.below(256) as u8);
                } else {
                    chunk.extend(pieces[numbers.below(pieces.len())]);
                }
            }
            chunk.truncate(1 + numbers.below(chunk.len() + 4));
            if screen.takes(&chunk) {
                screen.process(&chunk);
                taken += 1;
            }
            if let Some(cursor) = from_screen(&screen).cursor {
                for more in 0..=cols + 1 {
                    let text = [vec![0x18], vec![b'x'; usize::from(more)]].concat();
                    assert_eq!(screen.takes(&text), rows > 1 || cursor.col + more <= cols);
                    compared += 1;
                }
            }
        }
        assert_eq!(from_screen(&screen).cells.len(), usize::from(rows) * usize::from(cols));
    }
    assert!(taken > 50_000);
    assert!(compared > 10_000);
}
