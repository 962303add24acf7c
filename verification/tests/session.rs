use cellshot::frame::Frame;
use cellshot::session::{
    accept, accept_snapshot, close, ensure_socket_path, join, prepare_runtime_dir, process_group,
    request, runtime_dir, send, serve, snapshot, socket_path, validate_name, wait, Call, Captured,
    DirStep, Found, Options, Platform, Request, Response, SessionError, RUNTIME_DIR_MODE,
    SOCKET_MODE,
};

fn options() -> Options {
    Options {
        cols: 112,
        rows: 34,
        cell_width: 9,
        cell_height: 18,
        max_bytes: 4096,
        opentui_host: true,
    }
}

fn frame() -> Frame {
    cellshot::capture::ansi(b"hi".to_vec(), 2, 4, 16).unwrap().frame
}

#[test]
fn names_are_plain_ascii() {
    for name in ["demo", "a", "A-b_c.9", ".", ".."] {
        assert_eq!(validate_name(name), Ok(()));
    }
    for name in ["", "a b", "a/b", "caf\u{e9}", "a\n", "a:b"] {
        let error = validate_name(name).unwrap_err();
        assert_eq!(error, SessionError::InvalidName);
        assert_eq!(
            error.message(),
            "session names may contain only ASCII letters, digits, '.', '-', and '_'"
        );
    }
}

#[test]
fn requests_carry_what_was_asked() {
    assert_eq!(
        wait("demo", "/connect".to_owned(), 5000),
        Ok(Call {
            name: "demo".to_owned(),
            request: Request::Wait { text: "/connect".to_owned(), timeout_ms: 5000 },
        })
    );
    assert_eq!(
        send("demo", vec![b"h".to_vec(), b"i".to_vec()], 35),
        Ok(Call {
            name: "demo".to_owned(),
            request: Request::Send { input: vec![b"h".to_vec(), b"i".to_vec()], pace_ms: 35 },
        })
    );
    assert_eq!(
        snapshot("demo", 250, 5000),
        Ok(Call {
            name: "demo".to_owned(),
            request: Request::Snapshot { settle_ms: 250, deadline_ms: 5000 },
        })
    );
    assert_eq!(close("demo"), Ok(Call { name: "demo".to_owned(), request: Request::Close }));
}

#[test]
fn requests_need_a_name() {
    assert_eq!(wait("a/b", String::new(), 0), Err(SessionError::InvalidName));
    assert_eq!(send("", vec![], 0), Err(SessionError::InvalidName));
    assert_eq!(snapshot("a b", 0, 0), Err(SessionError::InvalidName));
    assert_eq!(close("*"), Err(SessionError::InvalidName));
}

#[test]
fn sockets_lie_in_the_runtime_directory() {
    assert_eq!(socket_path(b"/tmp/cellshot-501", "demo"), b"/tmp/cellshot-501/demo.sock");
    assert_eq!(socket_path(b"/run/", ".."), b"/run/...sock");
    assert_eq!(request(Platform::Unix, "demo", b"/run"), Ok(b"/run/demo.sock".to_vec()));
    assert_ne!(socket_path(b"/run", "a"), socket_path(b"/run", "a.sock"));
}

#[test]
fn paths_are_joined() {
    assert_eq!(join(b"/a", b"b"), b"/a/b");
    assert_eq!(join(b"/a/", b"b"), b"/a/b");
    assert_eq!(join(b"", b"b"), b"b");
    assert_eq!(join(b"/a", b"/b"), b"/b");
    assert_eq!(join(b"/a", b""), b"/a/");
}

#[test]
fn long_socket_paths_are_refused() {
    assert_eq!(ensure_socket_path(&[b'x'; 99]), Ok(()));
    let error = ensure_socket_path(&[b'x'; 100]).unwrap_err();
    assert_eq!(error, SessionError::SocketPathTooLong(vec![b'x'; 100]));
    assert_eq!(
        error.message(),
        format!(
            "session socket path is too long for portable Unix sockets: {}; set CELLSHOT_RUNTIME_DIR to a shorter directory",
            "x".repeat(100)
        )
    );
    let mut dir = vec![b'd'; 94];
    assert_eq!(request(Platform::Unix, "a", &dir), Err(SessionError::SocketPathTooLong(socket_path(&dir, "a"))));
    dir.pop();
    dir.pop();
    assert!(request(Platform::Unix, "a", &dir).is_ok());
}

#[test]
fn paths_that_are_no_text_are_shown_as_far_as_they_are() {
    let mut path = vec![0xff; 100];
    path[0] = b'/';
    let message = ensure_socket_path(&path).unwrap_err().message();
    assert!(message.contains("/\u{fffd}\u{fffd}"));
}

#[test]
fn runtime_directory_is_chosen_or_made_up_from_the_user() {
    assert_eq!(runtime_dir(Platform::Unix, Some(b"/x".to_vec()), 501), Ok(b"/x".to_vec()));
    assert_eq!(runtime_dir(Platform::Unix, Some(vec![]), 501), Ok(vec![]));
    assert_eq!(runtime_dir(Platform::Unix, None, 501), Ok(b"/tmp/cellshot-501".to_vec()));
    assert_eq!(runtime_dir(Platform::Unix, None, u32::MAX), Ok(b"/tmp/cellshot-4294967295".to_vec()));
}

#[test]
fn runtime_directory_is_private() {
    let path = b"/run";
    assert_eq!(prepare_runtime_dir(path, Found::Missing, 501), Ok(DirStep::Create));
    let own = Found::Existing { directory: true, symlink: false, owner: 501 };
    assert_eq!(prepare_runtime_dir(path, own, 501), Ok(DirStep::Use));
    let file = Found::Existing { directory: false, symlink: false, owner: 501 };
    let error = prepare_runtime_dir(path, file, 501).unwrap_err();
    assert_eq!(error, SessionError::NotADirectory(path.to_vec()));
    assert_eq!(error.message(), "session runtime path must be a real directory: /run");
    let link = Found::Existing { directory: true, symlink: true, owner: 502 };
    assert_eq!(prepare_runtime_dir(path, link, 501), Err(SessionError::NotADirectory(path.to_vec())));
    let foreign = Found::Existing { directory: true, symlink: false, owner: 0 };
    let error = prepare_runtime_dir(path, foreign, 501).unwrap_err();
    assert_eq!(error, SessionError::NotOwned(path.to_vec()));
    assert_eq!(
        error.message(),
        "session runtime directory is not owned by the current user: /run"
    );
    let error = prepare_runtime_dir(path, Found::Unknown("denied".to_owned()), 501).unwrap_err();
    assert_eq!(error, SessionError::Uninspected(path.to_vec(), "denied".to_owned()));
    assert_eq!(error.message(), "inspect /run: denied");
    assert_eq!((RUNTIME_DIR_MODE, SOCKET_MODE), (0o700, 0o600));
}

#[test]
fn sessions_need_unix() {
    let command = vec!["app".to_owned()];
    assert_eq!(runtime_dir(Platform::Other, None, 0), Err(SessionError::Unsupported));
    assert_eq!(request(Platform::Other, "demo", b"/run"), Err(SessionError::Unsupported));
    assert_eq!(
        serve(Platform::Other, b"/run/demo.sock", &command, &options()),
        Err(SessionError::Unsupported)
    );
    assert_eq!(SessionError::Unsupported.message(), "persistent sessions require Unix sockets");
    assert_eq!(request(Platform::Other, "a b", b"/run"), Err(SessionError::InvalidName));
}

#[test]
fn answers_with_an_error_are_errors() {
    let failed = Response { error: Some("session command has exited".to_owned()), captured: None };
    let error = accept(failed).unwrap_err();
    assert_eq!(error, SessionError::Remote("session command has exited".to_owned()));
    assert_eq!(error.message(), "session command has exited");
    let fine = Response { error: None, captured: None };
    assert_eq!(accept(fine), Ok(Response { error: None, captured: None }));
}

#[test]
fn snapshots_carry_a_screen() {
    let captured = Captured { frame: frame(), ansi: b"hi".to_vec() };
    let answer = Response { error: None, captured: Some(captured) };
    assert_eq!(
        accept_snapshot(answer),
        Ok(Captured { frame: frame(), ansi: b"hi".to_vec() })
    );
    let empty = Response { error: None, captured: None };
    let error = accept_snapshot(empty).unwrap_err();
    assert_eq!(error, SessionError::NoSnapshot);
    assert_eq!(error.message(), "session did not return a snapshot");
    let both = Response {
        error: Some("late".to_owned()),
        captured: Some(Captured { frame: frame(), ansi: vec![] }),
    };
    assert_eq!(accept_snapshot(both), Err(SessionError::Remote("late".to_owned())));
}

#[test]
fn servers_know_their_terminal_and_command() {
    let command = vec!["my-app".to_owned(), "-x".to_owned(), "--".to_owned()];
    let plan = serve(Platform::Unix, b"/run/demo.sock", &command, &options()).unwrap();
    assert_eq!(plan.program, "my-app");
    assert_eq!(plan.arguments, ["-x", "--"]);
    assert_eq!((plan.rows, plan.cols), (34, 112));
    assert_eq!((plan.pixel_width, plan.pixel_height), (9, 18));
    assert_eq!(
        plan.environment,
        [
            ("TERM".to_owned(), "xterm-truecolor".to_owned()),
            ("COLORTERM".to_owned(), "truecolor".to_owned()),
        ]
    );
}

#[test]
fn servers_need_a_socket_and_a_command() {
    let error = serve(Platform::Unix, b"/run/demo.sock", &vec![], &options()).unwrap_err();
    assert_eq!(error, SessionError::NoCommand);
    assert_eq!(error.message(), "provide a command after --");
    assert_eq!(
        serve(Platform::Unix, &[b'x'; 100], &vec![], &options()),
        Err(SessionError::SocketPathTooLong(vec![b'x'; 100]))
    );
}

#[test]
fn process_groups_are_positive_numbers() {
    assert_eq!(process_group(Some(1234)), Some(1234));
    assert_eq!(process_group(Some(i32::MAX as u32)), Some(i32::MAX));
    assert_eq!(process_group(Some(i32::MAX as u32 + 1)), None);
    assert_eq!(process_group(None), None);
}

#[test]
fn session_errors_are_told() {
    let cases = [
        (SessionError::AlreadyRunning("de\"mo".to_owned()), "session \"de\\\"mo\" is already running"),
        (
            SessionError::DaemonExited("exit status: 1".to_owned()),
            "session daemon exited before becoming ready: exit status: 1",
        ),
        (SessionError::StartTimeout("demo".to_owned()), "timed out starting session \"demo\""),
        (SessionError::CommandExited, "session command has exited"),
        (
            SessionError::EndedBefore("a\tb".to_owned()),
            "session ended before visible terminal included \"a\\tb\"",
        ),
        (
            SessionError::WaitTimeout("DONE".to_owned()),
            "timed out waiting for visible terminal text \"DONE\"",
        ),
        (SessionError::RequestTooLong, "session request exceeds 1 MiB"),
        (SessionError::InvalidRequest("odd".to_owned()), "invalid session request: odd"),
        (SessionError::UnreadRequest("slow".to_owned()), "failed to read session request: slow"),
        (SessionError::Outside("write recording event: full".to_owned()), "write recording event: full"),
    ];
    for (error, message) in cases {
        assert_eq!(error.message(), message);
    }
}
