use cellshot::capture::{
    ansi, color_environment, count_output, normalize_lines, output_path, plan_capture, read_limit,
    validate_terminal_size, write_outputs, Artifact, CaptureError, CaptureMode, CaptureScript,
    ColorMode, Contents, OutputStep,
};
use cellshot::input::InputError;
use cellshot::session::Request;

#[test]
fn rejects_zero_terminal_dimensions() {
    assert!(validate_terminal_size(0, 24).is_err());
    assert!(validate_terminal_size(80, 0).is_err());
}

#[test]
fn accepts_other_terminal_dimensions() {
    assert_eq!(validate_terminal_size(80, 24), Ok(()));
    assert_eq!(validate_terminal_size(1, 1), Ok(()));
    assert_eq!(
        validate_terminal_size(0, 0).unwrap_err().message(),
        "terminal dimensions must be greater than zero"
    );
}

#[test]
fn captures_are_checked_in_order() {
    let send = vec!["ctrl-p".to_owned(), "text:model".to_owned()];
    let bad = vec!["space".to_owned()];
    assert_eq!(plan_capture(80, 24, CaptureMode::Pty, &send, true), Ok(b"\x10model".to_vec()));
    assert_eq!(plan_capture(80, 24, CaptureMode::Pipe, &[], false), Ok(vec![]));
    assert_eq!(plan_capture(0, 24, CaptureMode::Pipe, &bad, true), Err(CaptureError::ZeroSize));
    assert_eq!(plan_capture(80, 24, CaptureMode::Pipe, &bad, true), Err(CaptureError::SendNeedsPty));
    assert_eq!(plan_capture(80, 24, CaptureMode::Pipe, &[], true), Err(CaptureError::HostNeedsPty));
    assert_eq!(
        plan_capture(80, 24, CaptureMode::Pty, &bad, false),
        Err(CaptureError::Input(InputError { event: "space".to_owned() }))
    );
}

#[test]
fn capture_errors_are_told() {
    assert_eq!(CaptureError::SendNeedsPty.message(), "--send is only supported with --mode pty");
    assert_eq!(CaptureError::HostNeedsPty.message(), "--host is only supported with --mode pty");
    assert_eq!(CaptureError::InputTooLong(1024).message(), "terminal input exceeds --max-bytes (1024)");
    let input = InputError { event: "space".to_owned() };
    let told = input.message();
    assert_eq!(CaptureError::Input(input).message(), told);
}

#[test]
fn one_byte_more_than_the_limit_is_read() {
    assert_eq!(read_limit(16), 17);
    assert_eq!(read_limit(0), 1);
    assert_eq!(read_limit(usize::MAX), usize::MAX as u64);
}

#[test]
fn streams_that_are_too_long_are_refused() {
    assert_eq!(ansi(b"12345".to_vec(), 4, 10, 4).unwrap_err(), CaptureError::InputTooLong(4));
    assert_eq!(ansi(b"1234".to_vec(), 4, 10, 4).unwrap().ansi, b"1234");
    assert_eq!(ansi(vec![], 4, 10, 0).unwrap().frame.text(), "");
}

#[test]
fn kept_stream_shows_the_same_screen() {
    let first = ansi(b"\x1b[44;97m status \x1b[0m\n".to_vec(), 24, 80, 1024).unwrap();
    let again = ansi(first.ansi.clone(), 24, 80, 1024).unwrap();
    assert_eq!(first, again);
}

fn write<'a>(path: &[u8], contents: Contents<'a>) -> OutputStep<'a> {
    OutputStep::Write { path: path.to_vec(), contents }
}

fn print<'a>(path: &[u8]) -> OutputStep<'a> {
    OutputStep::Print { path: path.to_vec() }
}

#[test]
fn all_files_are_written_and_told() {
    let captured = ansi(b"\x1b[1mhi\r\n\r\nyou\x1b[0m  ".to_vec(), 4, 20, 64).unwrap();
    assert_eq!(
        write_outputs(&captured, b"shots/v1.2", false, false),
        [
            write(b"shots/v1.2.json", Contents::Data(&captured.frame)),
            write(b"shots/v1.2.txt", Contents::Bytes(b"hi\n\nyou".to_vec())),
            write(b"shots/v1.2.ansi", Contents::Bytes(captured.ansi.clone())),
            write(b"shots/v1.2.svg", Contents::Drawing(&captured.frame)),
            print(b"shots/v1.2.svg"),
            write(b"shots/v1.2.png", Contents::Picture(&captured.frame)),
            print(b"shots/v1.2.png"),
            print(b"shots/v1.2.json"),
            print(b"shots/v1.2.txt"),
            print(b"shots/v1.2.ansi"),
        ]
    );
}

#[test]
fn pictures_can_be_left_out() {
    let captured = ansi(b"x".to_vec(), 4, 20, 64).unwrap();
    for (no_svg, no_png) in [(true, false), (false, true), (true, true)] {
        let steps = write_outputs(&captured, b"out", no_svg, no_png);
        assert_eq!(steps.contains(&write(b"out.svg", Contents::Drawing(&captured.frame))), !no_svg);
        assert_eq!(steps.contains(&print(b"out.svg")), !no_svg);
        assert_eq!(steps.contains(&write(b"out.png", Contents::Picture(&captured.frame))), !no_png);
        assert_eq!(steps.contains(&print(b"out.png")), !no_png);
        assert!(steps.contains(&write(b"out.txt", Contents::Bytes(b"x".to_vec()))));
        assert!(steps.contains(&print(b"out.ansi")));
    }
}

#[test]
fn files_do_not_collide() {
    assert_eq!(output_path(b"v1.2", Artifact::Png), b"v1.2.png");
    assert_ne!(output_path(b"v1.2", Artifact::Png), output_path(b"v1.3", Artifact::Png));
    assert_ne!(output_path(b"a", Artifact::Png), output_path(b"a", Artifact::Svg));
    assert_eq!(output_path(b"", Artifact::Json), b".json");
}

#[test]
fn output_is_counted_up_to_its_limit() {
    assert_eq!(count_output(0, 4, 4), Ok(4));
    assert_eq!(count_output(3, 1, 4), Ok(4));
    let error = count_output(3, 2, 4).unwrap_err();
    assert_eq!(error, CaptureError::OutputTooLong(4));
    assert_eq!(error.message(), "terminal output exceeds --max-bytes (4)");
    assert_eq!(count_output(4, usize::MAX, 4), Err(CaptureError::OutputTooLong(4)));
}

#[test]
fn colour_is_asked_for_or_refused() {
    let changes = |mode| -> Vec<(&'static str, Option<&'static str>)> {
        color_environment(mode).into_iter().map(|change| (change.name, change.value)).collect()
    };
    assert_eq!(changes(ColorMode::Auto), []);
    assert_eq!(
        changes(ColorMode::Always),
        [("NO_COLOR", None), ("FORCE_COLOR", Some("1")), ("CLICOLOR_FORCE", Some("1"))]
    );
    assert_eq!(
        changes(ColorMode::Never),
        [
            ("FORCE_COLOR", None),
            ("CLICOLOR_FORCE", None),
            ("NO_COLOR", Some("1")),
            ("CLICOLOR", Some("0")),
        ]
    );
}

#[test]
fn files_have_their_extensions() {
    assert_eq!(Artifact::Json.extension(), "json");
    assert_eq!(Artifact::Text.extension(), "txt");
    assert_eq!(Artifact::Ansi.extension(), "ansi");
    assert_eq!(Artifact::Svg.extension(), "svg");
    assert_eq!(Artifact::Png.extension(), "png");
}

#[test]
fn plain_line_feeds_become_line_endings() {
    assert_eq!(normalize_lines(b"a\nb\r\nc\n\n\r"), b"a\r\nb\r\nc\r\n\r\n\r");
    assert_eq!(normalize_lines(b"\n"), b"\r\n");
    assert_eq!(normalize_lines(b""), b"");
    let once = normalize_lines(b"x\ny\r\n");
    assert_eq!(normalize_lines(&once), once);
}

#[test]
fn screen_is_taken_last() {
    let script = CaptureScript {
        wait_for: Some("Commands".to_owned()),
        input: b"\x10model\r".to_vec(),
        settle_ms: 250,
        deadline_ms: 5000,
    };
    assert_eq!(
        script.next_request(0, 100),
        Some(Request::Wait { text: "Commands".to_owned(), timeout_ms: 4900 })
    );
    assert_eq!(
        script.next_request(1, 900),
        Some(Request::Send { input: vec![b"\x10model\r".to_vec()], pace_ms: 0 })
    );
    assert_eq!(
        script.next_request(2, 1000),
        Some(Request::Snapshot { settle_ms: 250, deadline_ms: 4000 })
    );
    assert_eq!(script.next_request(3, 1000), None);
    let plain = CaptureScript { wait_for: None, input: vec![], settle_ms: 1, deadline_ms: 2 };
    assert_eq!(
        plain.next_request(0, 3),
        Some(Request::Snapshot { settle_ms: 1, deadline_ms: 0 })
    );
    assert_eq!(plain.next_request(1, 3), None);
}
