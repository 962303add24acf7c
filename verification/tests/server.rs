use cellshot::recording::{Entry, InputOrigin, Line, Recording, Writer};
use cellshot::replay::states;
use cellshot::server::{Action, Event, Server, Transcript, OUTPUT_BATCH};
use cellshot::session::{Options, Request, Response, SessionError};

fn options() -> Options {
    Options { cols: 20, rows: 4, cell_width: 9, cell_height: 18, max_bytes: 8, opentui_host: false }
}

fn output(bytes: &[u8]) -> Event {
    Event::Output { at_ms: 1, bytes: bytes.to_vec() }
}

fn success() -> Action {
    Action::Reply(Response { error: None, captured: None })
}

fn failure(message: &str) -> Action {
    Action::Reply(Response { error: Some(message.to_owned()), captured: None })
}

/// A server that has taken in some output and waits for a client.
fn accepting(chunks: &[&[u8]]) -> Server {
    let (mut server, action) = Server::new(&options(), None);
    assert_eq!(action, Action::Receive);
    for chunk in chunks {
        assert_eq!(server.step(0, output(chunk)), Action::Answer(chunk.to_vec()));
        assert_eq!(server.step(0, Event::Answered(vec![])), Action::Receive);
    }
    assert_eq!(server.step(0, Event::Nothing), Action::Accept);
    server
}

/// A server that has taken in some output and has been asked something.
fn asked(chunks: &[&[u8]], now_ms: u64, request: Request) -> (Server, Action) {
    let mut server = accepting(chunks);
    assert_eq!(server.step(now_ms, Event::Done), Action::ReadRequest);
    assert_eq!(server.step(now_ms, Event::Bytes(b"{}".to_vec())), Action::ParseRequest(b"{}".to_vec()));
    let action = server.step(now_ms, Event::Request(request));
    (server, action)
}

fn close_output(server: &mut Server) {
    assert_eq!(server.step(0, Event::Nothing), Action::Sleep(10));
    assert_eq!(server.step(0, Event::Done), Action::Receive);
    assert_eq!(server.step(0, Event::Closed), Action::Accept);
}

#[test]
fn transcript_keeps_the_latest_bytes() {
    let mut transcript = Transcript::new(5);
    transcript.retain(b"abc");
    assert_eq!(transcript.bytes(), b"abc");
    transcript.retain(b"def");
    assert_eq!(transcript.bytes(), b"bcdef");
    transcript.retain(b"0123456789");
    assert_eq!(transcript.bytes(), b"56789");
    transcript.retain(b"");
    assert_eq!(transcript.bytes(), b"56789");
    let mut nothing = Transcript::new(0);
    nothing.retain(b"x");
    assert_eq!(nothing.bytes(), b"");
}

#[test]
fn idle_server_sleeps_and_looks_again() {
    let mut server = accepting(&[]);
    assert_eq!(server.step(0, Event::Nothing), Action::Sleep(10));
    assert_eq!(server.step(10, Event::Done), Action::Receive);
    assert_eq!(server.step(10, Event::Nothing), Action::Accept);
}

#[test]
fn ping_is_answered() {
    let (mut server, action) = asked(&[], 0, Request::Ping);
    assert_eq!(action, success());
    assert_eq!(server.step(0, Event::Done), Action::Receive);
}

#[test]
fn output_does_not_starve_clients() {
    let (mut server, _) = Server::new(&options(), None);
    for _ in 1..OUTPUT_BATCH {
        server.step(0, output(b"x"));
        assert_eq!(server.step(0, Event::Answered(vec![])), Action::Receive);
    }
    server.step(0, output(b"x"));
    assert_eq!(server.step(0, Event::Answered(vec![])), Action::Accept);
}

#[test]
fn wait_succeeds_once_the_text_is_visible() {
    let request = Request::Wait { text: "ready".to_owned(), timeout_ms: 100 };
    let (mut server, action) = asked(&[b"\x1b[31mre"], 1000, request);
    assert_eq!(action, Action::Receive);
    assert_eq!(server.step(1000, Event::Nothing), Action::Sleep(10));
    assert_eq!(server.step(1010, Event::Done), Action::Receive);
    server.step(1010, output(b"\x1b[32mady"));
    assert_eq!(server.step(1010, Event::Answered(vec![])), Action::Receive);
    assert_eq!(server.step(1010, Event::Nothing), success());
}

#[test]
fn wait_for_nothing_succeeds() {
    let (mut server, _) = asked(&[], 0, Request::Wait { text: String::new(), timeout_ms: 0 });
    assert_eq!(server.step(0, Event::Closed), success());
}

#[test]
fn wait_ends_with_its_time() {
    let request = Request::Wait { text: "DONE".to_owned(), timeout_ms: 100 };
    let (mut server, _) = asked(&[b"done"], 1000, request);
    assert_eq!(server.step(1099, Event::Nothing), Action::Sleep(10));
    server.step(1100, Event::Done);
    assert_eq!(
        server.step(1100, Event::Nothing),
        failure("timed out waiting for visible terminal text \"DONE\"")
    );
}

#[test]
fn wait_ends_with_the_application() {
    let request = Request::Wait { text: "DONE".to_owned(), timeout_ms: 0 };
    let (mut server, _) = asked(&[b"done"], 1000, request);
    assert_eq!(
        server.step(5000, Event::Closed),
        failure("session ended before visible terminal included \"DONE\"")
    );
}

#[test]
fn snapshot_waits_until_the_output_settles() {
    let request = Request::Snapshot { settle_ms: 250, deadline_ms: 5000 };
    let (mut server, action) = asked(&[], 1000, request);
    assert_eq!(action, Action::Receive);
    server.step(1100, output(b"hi"));
    server.step(1100, Event::Answered(vec![]));
    assert_eq!(server.step(1349, Event::Nothing), Action::Sleep(10));
    server.step(1350, Event::Done);
    match server.step(1350, Event::Nothing) {
        Action::Reply(Response { error: None, captured: Some(captured) }) => {
            assert_eq!(captured.frame.text(), "hi");
            assert_eq!(captured.ansi, b"hi");
        }
        other => panic!("unexpected {other:?}"),
    }
}

#[test]
fn snapshot_does_not_wait_past_its_deadline() {
    let request = Request::Snapshot { settle_ms: 1000, deadline_ms: 300 };
    let (mut server, _) = asked(&[b"x"], 1000, request);
    server.step(1299, output(b"y"));
    server.step(1299, Event::Answered(vec![]));
    assert_eq!(server.step(1299, Event::Nothing), Action::Sleep(10));
    server.step(1300, Event::Done);
    assert!(matches!(
        server.step(1300, Event::Nothing),
        Action::Reply(Response { error: None, captured: Some(_) })
    ));
}

#[test]
fn snapshot_holds_the_latest_output() {
    let request = Request::Snapshot { settle_ms: 0, deadline_ms: 0 };
    let (mut server, _) = asked(&[b"01234", b"56789"], 1, request);
    match server.step(1, Event::Nothing) {
        Action::Reply(Response { captured: Some(captured), .. }) => {
            assert_eq!(captured.ansi, b"23456789");
            assert_eq!(captured.frame.text(), "0123456789");
        }
        other => panic!("unexpected {other:?}"),
    }
}

#[test]
fn exited_session_keeps_its_screen_and_refuses_input() {
    let mut server = accepting(&[b"bye"]);
    close_output(&mut server);
    server.step(0, Event::Done);
    server.step(0, Event::Bytes(vec![]));
    assert_eq!(
        server.step(0, Event::Request(Request::Send { input: vec![b"x".to_vec()], pace_ms: 0 })),
        failure("session command has exited")
    );
    assert_eq!(server.step(0, Event::Done), Action::Receive);
    server.step(0, Event::Closed);
    server.step(0, Event::Done);
    server.step(0, Event::Bytes(vec![]));
    let request = Request::Snapshot { settle_ms: 1_000_000, deadline_ms: 1_000_000 };
    assert_eq!(server.step(0, Event::Request(request)), Action::Receive);
    match server.step(0, Event::Closed) {
        Action::Reply(Response { error: None, captured: Some(captured) }) => {
            assert_eq!(captured.frame.text(), "bye");
            assert_eq!(captured.ansi, b"bye");
        }
        other => panic!("unexpected {other:?}"),
    }
}

#[test]
fn input_is_typed_piece_by_piece() {
    let input = vec![b"h".to_vec(), b"i".to_vec()];
    let (mut server, action) = asked(&[], 0, Request::Send { input, pace_ms: 0 });
    assert_eq!(action, Action::Type(b"h".to_vec()));
    assert_eq!(server.step(0, Event::Done), Action::Type(b"i".to_vec()));
    assert_eq!(server.step(0, Event::Done), success());
    let (_, action) = asked(&[], 0, Request::Send { input: vec![], pace_ms: 35 });
    assert_eq!(action, success());
}

#[test]
fn paced_input_pauses_between_pieces() {
    let input = vec![b"a".to_vec(), b"b".to_vec(), b"c".to_vec()];
    let (mut server, action) = asked(&[], 0, Request::Send { input, pace_ms: 35 });
    assert_eq!(action, Action::Type(b"a".to_vec()));
    assert_eq!(server.step(0, Event::Done), Action::Sleep(35));
    assert_eq!(server.step(35, Event::Done), Action::Receive);
    server.step(35, output(b"a"));
    assert_eq!(server.step(35, Event::Answered(vec![])), Action::Receive);
    assert_eq!(server.step(35, Event::Nothing), Action::Type(b"b".to_vec()));
    assert_eq!(server.step(35, Event::Done), Action::Sleep(35));
    assert_eq!(server.step(70, Event::Done), Action::Receive);
    assert_eq!(server.step(70, Event::Closed), Action::Type(b"c".to_vec()));
    assert_eq!(server.step(70, Event::Done), success());
}

#[test]
fn failed_input_is_told_to_the_client() {
    let (mut server, _) = asked(&[], 0, Request::Send { input: vec![b"a".to_vec()], pace_ms: 0 });
    assert_eq!(server.step(0, Event::Failed("write input: gone".to_owned())), failure("write input: gone"));
    assert_eq!(server.step(0, Event::Failed("client gone".to_owned())), Action::Receive);
}

#[test]
fn bad_requests_are_answered() {
    let cases = [
        (Event::Bytes(vec![b' '; 1048577]), "session request exceeds 1 MiB"),
        (Event::Unread("timed out".to_owned()), "failed to read session request: timed out"),
    ];
    for (event, message) in cases {
        let mut server = accepting(&[b"x"]);
        server.step(0, Event::Done);
        assert_eq!(server.step(0, event), failure(message));
        assert_eq!(server.step(0, Event::Failed("gone".to_owned())), Action::Receive);
        assert_eq!(server.step(0, Event::Nothing), Action::Accept);
    }
    let mut server = accepting(&[]);
    server.step(0, Event::Done);
    let longest = vec![b' '; 1048576];
    assert_eq!(server.step(0, Event::Bytes(longest.clone())), Action::ParseRequest(longest));
    assert_eq!(
        server.step(0, Event::Unparsed("expected value".to_owned())),
        failure("invalid session request: expected value")
    );
}

#[test]
fn session_ends_once_its_close_is_answered() {
    let (mut server, action) = asked(&[], 0, Request::Close);
    assert_eq!(action, success());
    assert_eq!(server.step(0, Event::Done), Action::Exit(Ok(())));
    let (mut server, _) = asked(&[], 0, Request::Close);
    assert_eq!(server.step(0, Event::Failed("gone".to_owned())), Action::Receive);
}

#[test]
fn failures_without_a_client_end_the_session() {
    let error = || Action::Exit(Err(SessionError::Outside("broken".to_owned())));
    let broken = || Event::Failed("broken".to_owned());
    let mut server = accepting(&[]);
    assert_eq!(server.step(0, broken()), error());
    let mut server = accepting(&[]);
    server.step(0, Event::Done);
    assert_eq!(server.step(0, broken()), error());
    let (mut server, _) = Server::new(&options(), None);
    server.step(0, output(b"x"));
    assert_eq!(server.step(0, broken()), error());
}

#[test]
fn recording_keeps_output_and_input() {
    let (writer, header) = Writer::new(100, 20, 4, 9, 18);
    let mut lines = vec![Line::Parsed(header)];
    let (mut server, _) = Server::new(&options(), Some(writer));
    let mut keep = |action: Action| match action {
        Action::Record(entry) => lines.push(Line::Parsed(entry)),
        other => panic!("expected an entry, found {other:?}"),
    };
    keep(server.step(150, Event::Output { at_ms: 40, bytes: b"\x1b[c".to_vec() }));
    assert_eq!(server.step(150, Event::Done), Action::Answer(b"\x1b[c".to_vec()));
    keep(server.step(160, Event::Answered(b"\x1b[?62c".to_vec())));
    assert_eq!(server.step(160, Event::Done), Action::Receive);
    keep(server.step(170, Event::Output { at_ms: 65, bytes: b"hello".to_vec() }));
    server.step(170, Event::Done);
    assert_eq!(server.step(170, Event::Answered(vec![])), Action::Receive);
    assert_eq!(server.step(170, Event::Nothing), Action::Accept);
    server.step(170, Event::Done);
    server.step(170, Event::Bytes(vec![]));
    let request = Request::Send { input: vec![b"x".to_vec()], pace_ms: 0 };
    assert_eq!(server.step(170, Event::Request(request)), Action::Type(b"x".to_vec()));
    keep(server.step(180, Event::Done));
    assert_eq!(server.step(180, Event::Done), success());

    let recording = cellshot::recording::read(lines).unwrap();
    assert_eq!(
        recording.events,
        [
            Entry::Output { at_ms: 40, bytes: b"\x1b[c".to_vec() },
            Entry::Input { at_ms: 60, origin: InputOrigin::Host, bytes: b"\x1b[?62c".to_vec() },
            Entry::Output { at_ms: 65, bytes: b"hello".to_vec() },
            Entry::Input { at_ms: 80, origin: InputOrigin::Client, bytes: b"x".to_vec() },
        ]
    );

    server.step(180, Event::Done);
    server.step(180, Event::Nothing);
    server.step(180, Event::Done);
    server.step(180, Event::Bytes(vec![]));
    server.step(180, Event::Request(Request::Snapshot { settle_ms: 0, deadline_ms: 0 }));
    let live = match server.step(180, Event::Nothing) {
        Action::Reply(Response { captured: Some(captured), .. }) => captured.frame,
        other => panic!("unexpected {other:?}"),
    };
    assert_eq!(states(&recording).last().unwrap().frame, live);
}

#[test]
fn failed_recording_is_told_to_the_client() {
    let (writer, _) = Writer::new(0, 20, 4, 9, 18);
    let (mut server, _) = Server::new(&options(), Some(writer));
    server.step(0, Event::Nothing);
    server.step(0, Event::Done);
    server.step(0, Event::Bytes(vec![]));
    server.step(0, Event::Request(Request::Wait { text: "x".to_owned(), timeout_ms: 50 }));
    server.step(0, output(b"x"));
    assert_eq!(
        server.step(0, Event::Failed("write recording event: full".to_owned())),
        failure("write recording event: full")
    );
}

#[test]
fn small_terminals_tell_what_they_take() {
    let small = Options { rows: 1, cols: 3, ..options() };
    let (mut server, _) = Server::new(&small, None);
    assert!(server.takes(b"abc"));
    assert!(!server.takes(b"abcd"));
    server.step(0, output(b"ab"));
    server.step(0, Event::Answered(vec![]));
    assert!(server.takes(b"c"));
    assert!(!server.takes(b"cd"));
    assert!(server.takes(b"\x1b[2K\rcd"));
}

#[test]
fn recordings_of_a_session_can_be_replayed() {
    let events = vec![Entry::Output { at_ms: 3, bytes: b"end".to_vec() }];
    let recording = Recording { cols: 20, rows: 4, cell_width: 9, cell_height: 18, events };
    assert_eq!(states(&recording).last().unwrap().frame.text(), "end");
}

#[test]
fn requests_do_not_touch_the_screen() {
    let mut server = accepting(&[b"same"]);
    let requests = [
        Event::Request(Request::Ping),
        Event::Unparsed("odd".to_owned()),
        Event::Request(Request::Send { input: vec![], pace_ms: 0 }),
    ];
    for request in requests {
        server.step(0, Event::Done);
        server.step(0, Event::Bytes(vec![]));
        server.step(0, request);
        server.step(0, Event::Done);
        assert_eq!(server.step(0, Event::Nothing), Action::Accept);
    }
    server.step(0, Event::Done);
    server.step(0, Event::Bytes(vec![]));
    server.step(0, Event::Request(Request::Snapshot { settle_ms: 0, deadline_ms: 0 }));
    match server.step(0, Event::Nothing) {
        Action::Reply(Response { captured: Some(captured), .. }) => {
            assert_eq!(captured.frame.text(), "same");
            assert_eq!(captured.ansi, b"same");
        }
        other => panic!("unexpected {other:?}"),
    }
}
