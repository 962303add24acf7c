use std::time::Duration;

use cellshot::frame::{Frame, DEFAULT_BACKGROUND, DEFAULT_FOREGROUND};
use cellshot::recording::{
    read, Entry, InputOrigin, Line, RecordingError, Writer, RECORDING_MODE, RECORDING_VERSION,
};

fn header(version: u8) -> Entry {
    Entry::Header { version, cols: 2, rows: 1, cell_width: 9, cell_height: 18 }
}

#[test]
fn idle_compression_caps_frame_duration() {
    assert_eq!(
        Duration::from_secs(4).min(Duration::from_millis(500)),
        Duration::from_millis(500)
    );
}

#[test]
fn preserves_input_origin_and_binary_output() {
    let (mut writer, first) = Writer::new(7, 2, 1, 9, 18);
    let lines = vec![
        Line::Parsed(first),
        Line::Parsed(writer.output(1, &[0, 255, b'A'])),
        Line::Parsed(writer.input(9, InputOrigin::Host, b"reply")),
    ];
    let recording = read(lines).unwrap();
    assert!(matches!(
        &recording.events[0],
        Entry::Output { at_ms: 1, bytes } if bytes == &[0, 255, b'A']
    ));
    assert!(matches!(
        &recording.events[1],
        Entry::Input { origin: InputOrigin::Host, bytes, .. } if bytes == b"reply"
    ));
}

#[test]
fn identifies_visible_frame_content_without_cursor() {
    assert!(
        !Frame {
            version: 1,
            cols: 1,
            rows: 1,
            foreground: DEFAULT_FOREGROUND,
            background: DEFAULT_BACKGROUND,
            cursor: None,
            cells: Vec::new(),
        }
        .has_visible_content()
    );
}

#[test]
fn recording_opens_with_its_header() {
    let (_, first) = Writer::new(0, 112, 34, 9, 18);
    assert_eq!(
        first,
        Entry::Header { version: 1, cols: 112, rows: 34, cell_width: 9, cell_height: 18 }
    );
    assert_eq!(RECORDING_VERSION, 1);
    assert_eq!(RECORDING_MODE, 0o600);
}

#[test]
fn input_is_stamped_with_the_time_since_the_start() {
    let (mut writer, _) = Writer::new(1000, 2, 1, 9, 18);
    assert_eq!(
        writer.input(1250, InputOrigin::Client, b"x"),
        Entry::Input { at_ms: 250, origin: InputOrigin::Client, bytes: b"x".to_vec() }
    );
    assert_eq!(
        writer.input(10, InputOrigin::Client, b""),
        Entry::Input { at_ms: 0, origin: InputOrigin::Client, bytes: Vec::new() }
    );
}

#[test]
fn reading_gives_back_what_was_written() {
    let (mut writer, first) = Writer::new(0, 80, 24, 8, 16);
    let entries = vec![
        writer.output(3, b"one"),
        writer.input(4, InputOrigin::Client, b"two"),
        writer.input(5, InputOrigin::Host, &[0, 128, 255]),
        writer.output(6, b""),
    ];
    let mut lines = vec![Line::Parsed(first)];
    lines.extend(entries.iter().map(|entry| Line::Parsed(cellshot::recording::copy_entry(entry))));
    let recording = read(lines).unwrap();
    assert_eq!(recording.events, entries);
    assert_eq!((recording.cols, recording.rows), (80, 24));
    assert_eq!((recording.cell_width, recording.cell_height), (8, 16));
}

#[test]
fn bad_recordings_are_refused() {
    let cases: Vec<(Vec<Line>, RecordingError, &str)> = vec![
        (vec![], RecordingError::Empty, "recording is empty"),
        (
            vec![Line::Unread("gone".to_owned())],
            RecordingError::HeaderUnread("gone".to_owned()),
            "read recording header: gone",
        ),
        (
            vec![Line::Unparsed("odd".to_owned())],
            RecordingError::HeaderUnparsed("odd".to_owned()),
            "parse recording header: odd",
        ),
        (
            vec![Line::Parsed(Entry::Output { at_ms: 0, bytes: vec![] })],
            RecordingError::NoHeader,
            "recording does not start with a header",
        ),
        (
            vec![Line::Parsed(header(2)), Line::Unparsed("late".to_owned())],
            RecordingError::Version(2),
            "unsupported recording version 2",
        ),
        (
            vec![Line::Parsed(header(1)), Line::Unread("gone".to_owned()), Line::Unparsed("odd".to_owned())],
            RecordingError::EventUnread("gone".to_owned()),
            "read recording event: gone",
        ),
        (
            vec![Line::Parsed(header(1)), Line::Parsed(header(1)), Line::Unparsed("odd".to_owned())],
            RecordingError::EventUnparsed("odd".to_owned()),
            "parse recording event: odd",
        ),
    ];
    for (lines, error, message) in cases {
        let found = read(lines).unwrap_err();
        assert_eq!(found, error);
        assert_eq!(found.message(), message);
    }
}

#[test]
fn resize_entries_are_kept_in_their_place() {
    let resize = || Entry::Resize { at_ms: 20, cols: 132, rows: 38 };
    let lines = vec![
        Line::Parsed(header(1)),
        Line::Parsed(Entry::Output { at_ms: 10, bytes: b"a".to_vec() }),
        Line::Parsed(resize()),
        Line::Parsed(Entry::Output { at_ms: 30, bytes: b"b".to_vec() }),
    ];
    let recording = read(lines).unwrap();
    assert_eq!(recording.events.len(), 3);
    assert_eq!(recording.events[1], resize());
    assert_eq!(cellshot::recording::copy_entry(&recording.events[1]), resize());
}
