use cellshot::capture::ansi;
use cellshot::frame::Frame;
use cellshot::recording::{Entry, InputOrigin, Line, Recording, RecordingError};
use cellshot::replay::{
    ffmpeg_arguments, frame_file, is_countable, is_playable, replay, samples, states, video,
    VideoError, VideoFrame, VideoOptions,
};

fn options() -> VideoOptions {
    VideoOptions {
        cell_width: None,
        cell_height: None,
        fps: 20,
        max_idle_ms: None,
        tail_ms: 1000,
        from_launch: false,
    }
}

fn output(at_ms: u64, bytes: &[u8]) -> Entry {
    Entry::Output { at_ms, bytes: bytes.to_vec() }
}

fn recording(events: Vec<Entry>) -> Recording {
    Recording { cols: 10, rows: 2, cell_width: 9, cell_height: 18, events }
}

fn screen(bytes: &[u8]) -> Frame {
    ansi(bytes.to_vec(), 2, 10, 1024).unwrap().frame
}

fn texts(frames: &[Frame]) -> Vec<String> {
    frames.iter().map(|frame| frame.text()).collect()
}

fn times(list: &[VideoFrame]) -> Vec<u64> {
    list.iter().map(|state| state.at_ms).collect()
}

#[test]
fn video_lasts_as_long_as_the_replay() {
    let list = vec![VideoFrame { at_ms: 0, frame: screen(b"a") }];
    let frames = |fps, tail_ms| samples(&list, &VideoOptions { fps, tail_ms, ..options() }).len();
    assert_eq!(frames(60, 1000), 61);
    assert_eq!(frames(20, 1000), 21);
    assert_eq!(frames(30, 1000), 31);
    assert_eq!(frames(1, 1000), 2);
    assert_eq!(frames(1, 999), 1);
    assert_eq!(frames(3000, 10), 31);
    for fps in [7, 24, 59, 144, 999, 1001] {
        let exact = 12.5 * f64::from(fps);
        assert_eq!(frames(fps, 12_500), exact.floor() as usize + 1);
    }
}

#[test]
fn frames_follow_the_clock() {
    let list: Vec<VideoFrame> = (0..100u8)
        .map(|i| VideoFrame { at_ms: u64::from(i), frame: screen(&[b'0' + i / 10, b'0' + i % 10]) })
        .collect();
    let shown = texts(&samples(&list, &VideoOptions { fps: 60, tail_ms: 0, ..options() }));
    assert_eq!(shown, ["00", "16", "33", "50", "66", "83"]);
    let fast = texts(&samples(&list, &VideoOptions { fps: 2000, tail_ms: 0, ..options() }));
    assert_eq!(fast.len(), 199);
    assert_eq!(fast[..4], ["00", "00", "01", "01"]);
}

#[test]
fn screens_change() {
    let found = states(&recording(vec![
        output(5, b"a"),
        Entry::Input { at_ms: 6, origin: InputOrigin::Client, bytes: b"q".to_vec() },
        output(7, b"\x1b[0m"),
        output(9, b"b"),
        Entry::Header { version: 1, cols: 1, rows: 1, cell_width: 1, cell_height: 1 },
        output(9, b""),
        output(8, b"\x08 "),
    ]));
    assert_eq!(times(&found), [0, 5, 9, 8]);
    let shown: Vec<String> = found.iter().map(|state| state.frame.text()).collect();
    assert_eq!(shown, ["", "a", "ab", "a"]);
}

#[test]
fn only_output_is_shown() {
    let resize = Entry::Resize { at_ms: 2, cols: 40, rows: 12 };
    assert_eq!(
        states(&recording(vec![output(1, b"a"), resize, output(3, b"b")])),
        states(&recording(vec![output(1, b"a"), output(3, b"b")]))
    );
}

#[test]
fn screens_keep_the_times_of_output() {
    let events = vec![
        output(10, b"a"),
        output(20, b""),
        Entry::Resize { at_ms: 25, cols: 40, rows: 12 },
        output(30, b"b"),
        output(30, b"c"),
    ];
    let all = states(&recording(events));
    assert_eq!(all.iter().map(|state| state.at_ms).collect::<Vec<_>>(), [0, 10, 30, 30]);
}

#[test]
fn input_is_not_shown() {
    let typed = Entry::Input { at_ms: 3, origin: InputOrigin::Host, bytes: b"reply".to_vec() };
    assert_eq!(
        states(&recording(vec![output(1, b"a"), typed])),
        states(&recording(vec![output(1, b"a")]))
    );
}

#[test]
fn replay_keeps_real_timing() {
    let list = vec![
        VideoFrame { at_ms: 300, frame: screen(b"a") },
        VideoFrame { at_ms: 400, frame: screen(b"b") },
        VideoFrame { at_ms: 450, frame: screen(b"c") },
    ];
    let frames = samples(&list, &VideoOptions { tail_ms: 100, ..options() });
    assert_eq!(texts(&frames), ["a", "a", "b", "c", "c", "c"]);
}

#[test]
fn idle_time_is_capped() {
    let list = vec![
        VideoFrame { at_ms: 0, frame: screen(b"a") },
        VideoFrame { at_ms: 4000, frame: screen(b"b") },
        VideoFrame { at_ms: 4050, frame: screen(b"c") },
    ];
    let capped = VideoOptions { max_idle_ms: Some(100), tail_ms: 0, ..options() };
    assert_eq!(texts(&samples(&list, &capped)), ["a", "a", "b", "c"]);
    let whole = VideoOptions { tail_ms: 0, ..options() };
    assert_eq!(samples(&list, &whole).len(), 4050 / 50 + 1);
}

#[test]
fn time_that_runs_back_is_no_gap() {
    let list = vec![
        VideoFrame { at_ms: 100, frame: screen(b"a") },
        VideoFrame { at_ms: 50, frame: screen(b"b") },
        VideoFrame { at_ms: 100, frame: screen(b"c") },
    ];
    let frames = samples(&list, &VideoOptions { tail_ms: 49, ..options() });
    assert_eq!(texts(&frames), ["b", "c"]);
}

#[test]
fn last_screen_is_held() {
    let list = vec![VideoFrame { at_ms: 9999, frame: screen(b"end") }];
    assert_eq!(samples(&list, &options()).len(), 21);
    assert_eq!(samples(&list, &VideoOptions { tail_ms: 49, ..options() }).len(), 1);
    assert_eq!(samples(&list, &VideoOptions { tail_ms: 50, ..options() }).len(), 2);
}

#[test]
fn screens_show_in_order() {
    let list: Vec<VideoFrame> = (0..6u8)
        .map(|i| VideoFrame { at_ms: 17 * u64::from(i), frame: screen(&[b'0' + i]) })
        .collect();
    let shown = texts(&samples(&list, &VideoOptions { tail_ms: 100, ..options() }));
    assert_eq!(shown, ["0", "2", "5", "5"]);
}

#[test]
fn replay_opens_with_the_first_visible_screen() {
    let events = || {
        vec![
            output(100, b"\x1b[44m \x1b[0m"),
            output(200, b"text"),
            output(250, b"!"),
        ]
    };
    let short = |from_launch| VideoOptions { tail_ms: 0, from_launch, ..options() };
    let video = replay(&recording(events()), &short(false)).unwrap();
    assert_eq!(texts(&video.frames), [" text", " text!"]);
    let whole = replay(&recording(events()), &short(true)).unwrap();
    assert_eq!(whole.frames.len(), 6);
    assert_eq!(whole.frames[0].text(), "");
}

#[test]
fn painted_backgrounds_are_kept() {
    let painted = recording(vec![output(50, b"\x1b[44m \x1b[0m")]);
    let video = replay(&painted, &VideoOptions { tail_ms: 0, ..options() }).unwrap();
    assert_eq!(video.frames.len(), 1);
    assert!(video.frames[0].has_painted_background());
}

#[test]
fn cells_keep_their_recorded_size_unless_told_otherwise() {
    let list = || recording(vec![output(0, b"x")]);
    let video = replay(&list(), &options()).unwrap();
    assert_eq!((video.cell_width, video.cell_height), (9, 18));
    let scaled = VideoOptions { cell_width: Some(12), cell_height: Some(24), ..options() };
    let video = replay(&list(), &scaled).unwrap();
    assert_eq!((video.cell_width, video.cell_height), (12, 24));
}

#[test]
fn small_recordings_play_as_long_as_they_fit() {
    let small = |events| Recording { cols: 2, rows: 1, cell_width: 9, cell_height: 18, events };
    let short = || VideoOptions { tail_ms: 0, ..options() };
    assert!(is_playable(&small(vec![output(0, b"a"), output(1, b"b")])));
    assert!(is_playable(&small(vec![output(0, b"ab"), output(1, b"\rc")])));
    assert!(!is_playable(&small(vec![output(0, b"ab"), output(1, b"c")])));
    let video = replay(&small(vec![output(0, b"a"), output(50, b"b")]), &short());
    assert_eq!(texts(&video.unwrap().frames), ["a", "ab"]);
    assert_eq!(replay(&small(vec![output(0, b"abc")]), &options()), Err(VideoError::Undrawable));
    assert!(!is_playable(&Recording { cols: 0, rows: 5, cell_width: 1, cell_height: 1, events: vec![] }));
}

#[test]
fn narrow_recordings_are_replayed() {
    let pair = |bytes: &[u8]| Recording {
        cols: 2,
        rows: 1,
        cell_width: 9,
        cell_height: 18,
        events: vec![output(5, bytes)],
    };
    let short = || VideoOptions { tail_ms: 0, ..options() };
    let warning = replay(&pair("\u{26a0}x".as_bytes()), &short()).unwrap();
    assert_eq!(texts(&warning.frames), ["\u{26a0}x"]);
    assert_eq!(replay(&pair(b"\x1b[?25;6h "), &short()), Err(VideoError::NothingVisible));
    assert_eq!(
        replay(&pair("\u{26a0}xx".as_bytes()), &short()),
        Err(VideoError::Undrawable)
    );
}

#[test]
fn one_row_recordings_are_replayed() {
    let row = |bytes: &[u8]| Recording {
        cols: 80,
        rows: 1,
        cell_width: 9,
        cell_height: 18,
        events: vec![output(5, bytes)],
    };
    let short = || VideoOptions { tail_ms: 0, ..options() };
    assert_eq!(texts(&replay(&row(b"\x1b[2KA"), &short()).unwrap().frames), ["A"]);
    assert_eq!(replay(&row(b"\x1b[2K"), &short()), Err(VideoError::NothingVisible));
    let painted = replay(&row(b"\x1b[2K\x1b[41m \x1b[0m"), &short()).unwrap();
    assert!(painted.frames[0].has_painted_background());
}

#[test]
fn videos_are_made_from_files() {
    let lines = |version| {
        vec![
            Line::Parsed(Entry::Header { version, cols: 10, rows: 2, cell_width: 9, cell_height: 18 }),
            Line::Parsed(output(10, b"hi")),
        ]
    };
    let made = video(Ok(lines(1)), &VideoOptions { tail_ms: 0, ..options() }).unwrap();
    assert_eq!(texts(&made.frames), ["hi"]);
    assert_eq!(
        video(Ok(lines(9)), &options()),
        Err(VideoError::Unreadable(RecordingError::Version(9)))
    );
    assert_eq!(
        video(Ok(lines(9)), &VideoOptions { fps: 0, ..options() }),
        Err(VideoError::ZeroFps)
    );
    assert_eq!(
        video(Err("open x: gone".to_owned()), &options()),
        Err(VideoError::Unopened("open x: gone".to_owned()))
    );
    assert_eq!(
        video(Ok(lines(1).into_iter().take(1).collect()), &options()),
        Err(VideoError::NothingVisible)
    );
}

#[test]
fn times_that_cannot_be_counted_are_told() {
    let list = recording(vec![output(10, b"hi")]);
    let long = VideoOptions { tail_ms: u64::MAX, from_launch: true, ..options() };
    assert_eq!(replay(&list, &long), Err(VideoError::Uncountable));
    assert!(!is_countable(&states(&list), &long));
    assert!(is_countable(&states(&list), &options()));
}

#[test]
fn video_errors_are_told() {
    assert_eq!(VideoError::ZeroFps.message(), "--fps must be greater than zero");
    assert_eq!(VideoError::NothingVisible.message(), "recording contains no visible output frames");
    assert_eq!(VideoError::Unopened("open x".to_owned()).message(), "open x");
    assert_eq!(VideoError::Unreadable(RecordingError::Empty).message(), "recording is empty");
    assert_eq!(VideoError::Uncountable.message(), "recorded times are too large");
    assert_eq!(
        VideoError::Undrawable.message(),
        "recorded output does not fit the recorded terminal size"
    );
}

#[test]
fn pictures_are_numbered() {
    assert_eq!(frame_file(0), "frame-000000.png");
    assert_eq!(frame_file(42), "frame-000042.png");
    assert_eq!(frame_file(999_999), "frame-999999.png");
    assert_eq!(frame_file(12_345_678), "frame-12345678.png");
    for index in [7, 10, 100_000, 1_000_000, u64::MAX] {
        assert_eq!(frame_file(index), format!("frame-{index:06}.png"));
    }
}

#[test]
fn encoder_is_told_what_to_do() {
    let arguments: Vec<String> = ffmpeg_arguments(20, b"/tmp/x/frame-%06d.png", b"out.mp4")
        .into_iter()
        .map(|word| String::from_utf8(word).unwrap())
        .collect();
    assert_eq!(
        arguments,
        [
            "-y", "-loglevel", "error", "-framerate", "20", "-i", "/tmp/x/frame-%06d.png", "-vf",
            "format=yuv420p", "-movflags", "+faststart", "out.mp4",
        ]
    );
}
