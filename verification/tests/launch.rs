use cellshot::launch::{launch, Launch, LaunchAction, LaunchEvent, START_POLL_MS, START_TIMEOUT_MS};
use cellshot::session::{Options, Platform, SessionError};

fn options(opentui_host: bool) -> Options {
    Options { cols: 80, rows: 24, cell_width: 9, cell_height: 18, max_bytes: 16777216, opentui_host }
}

fn start(record: Option<&[u8]>) -> Launch {
    launch(
        Platform::Unix,
        "demo",
        vec!["app".to_owned(), "-v".to_owned()],
        None,
        record.map(|path| path.to_vec()),
        options(false),
    )
    .unwrap()
}

fn dir() -> LaunchEvent {
    LaunchEvent::Dir(b"/run".to_vec())
}

fn refused() -> LaunchEvent {
    LaunchEvent::Failed(SessionError::Outside("refused".to_owned()))
}

fn words(action: LaunchAction) -> Vec<String> {
    match action {
        LaunchAction::Spawn(arguments) => {
            arguments.into_iter().map(|word| String::from_utf8(word).unwrap()).collect()
        }
        other => panic!("expected a start, found {other:?}"),
    }
}

#[test]
fn launch_starts_a_server_and_waits_for_it() {
    let mut launch = start(None);
    assert_eq!(launch.step(0, dir()), LaunchAction::FindSocket);
    assert_eq!(launch.socket(), b"/run/demo.sock");
    assert_eq!(
        words(launch.step(0, LaunchEvent::Nothing)),
        [
            "__serve", "--socket", "/run/demo.sock", "--cols", "80", "--rows", "24",
            "--cell-width", "9", "--cell-height", "18", "--max-bytes", "16777216", "--", "app", "-v",
        ]
    );
    assert_eq!(launch.step(100, LaunchEvent::Done), LaunchAction::Ping);
    assert_eq!(launch.step(101, refused()), LaunchAction::PollServer);
    assert_eq!(launch.step(102, LaunchEvent::Nothing), LaunchAction::Sleep(START_POLL_MS));
    assert_eq!(launch.step(122, LaunchEvent::Done), LaunchAction::Ping);
    assert_eq!(launch.step(123, LaunchEvent::Done), LaunchAction::Finish(Ok(())));
}

#[test]
fn options_reach_the_server() {
    let mut launch = launch(
        Platform::Unix,
        "demo",
        vec!["app".to_owned()],
        Some(b"./app".to_vec()),
        Some(b"/captures/demo.cellshot".to_vec()),
        options(true),
    )
    .unwrap();
    launch.step(0, dir());
    let arguments = words(launch.step(0, LaunchEvent::Nothing));
    assert_eq!(
        arguments[13..],
        ["--opentui-host", "--cwd", "./app", "--record", "/captures/demo.cellshot", "--", "app"]
    );
}

#[test]
fn recordings_are_put_below_the_working_directory() {
    let mut launch = start(Some(b"captures/demo.cellshot"));
    launch.step(0, dir());
    assert_eq!(launch.step(0, LaunchEvent::Nothing), LaunchAction::FindWorkingDir);
    let arguments = words(launch.step(0, LaunchEvent::Dir(b"/home/me".to_vec())));
    assert_eq!(arguments[13..16], ["--record", "/home/me/captures/demo.cellshot", "--"]);
}

#[test]
fn running_session_is_left_alone() {
    let mut launch = start(None);
    launch.step(0, dir());
    assert_eq!(launch.step(0, LaunchEvent::Done), LaunchAction::Ping);
    assert_eq!(
        launch.step(0, LaunchEvent::Done),
        LaunchAction::Finish(Err(SessionError::AlreadyRunning("demo".to_owned())))
    );
}

#[test]
fn stale_socket_is_removed() {
    let mut launch = start(None);
    launch.step(0, dir());
    launch.step(0, LaunchEvent::Done);
    assert_eq!(launch.step(0, refused()), LaunchAction::RemoveSocket);
    assert_eq!(words(launch.step(0, LaunchEvent::Done))[0], "__serve");
}

#[test]
fn stale_socket_that_stays_ends_the_launch() {
    let mut launch = start(None);
    launch.step(0, dir());
    launch.step(0, LaunchEvent::Done);
    launch.step(0, refused());
    assert_eq!(
        launch.step(0, LaunchEvent::Failed(SessionError::Outside("remove stale".to_owned()))),
        LaunchAction::Finish(Err(SessionError::Outside("remove stale".to_owned())))
    );
}

#[test]
fn server_that_exits_ends_the_launch() {
    let mut launch = start(None);
    launch.step(0, dir());
    launch.step(0, LaunchEvent::Nothing);
    launch.step(0, LaunchEvent::Done);
    launch.step(0, refused());
    assert_eq!(
        launch.step(0, LaunchEvent::Exited("exit status: 1".to_owned())),
        LaunchAction::Finish(Err(SessionError::DaemonExited("exit status: 1".to_owned())))
    );
}

#[test]
fn server_that_does_not_answer_is_killed() {
    let mut launch = start(None);
    launch.step(0, dir());
    launch.step(0, LaunchEvent::Nothing);
    launch.step(1000, LaunchEvent::Done);
    launch.step(1000, refused());
    assert_eq!(
        launch.step(1000 + START_TIMEOUT_MS - 1, LaunchEvent::Nothing),
        LaunchAction::Sleep(START_POLL_MS)
    );
    launch.step(6000, LaunchEvent::Done);
    launch.step(6000, refused());
    assert_eq!(
        launch.step(1000 + START_TIMEOUT_MS, LaunchEvent::Nothing),
        LaunchAction::KillServer
    );
    assert_eq!(
        launch.step(6001, LaunchEvent::Done),
        LaunchAction::Finish(Err(SessionError::StartTimeout("demo".to_owned())))
    );
}

#[test]
fn launch_needs_a_socket_that_fits() {
    let mut launch = start(None);
    match launch.step(0, LaunchEvent::Dir(vec![b'd'; 100])) {
        LaunchAction::Finish(Err(SessionError::SocketPathTooLong(path))) => assert_eq!(path.len(), 110),
        other => panic!("unexpected {other:?}"),
    }
}

#[test]
fn launch_needs_a_name_unix_and_a_command() {
    let command = vec!["app".to_owned()];
    let refused = |platform, name, command: &Vec<String>| {
        launch(platform, name, command.clone(), None, None, options(false)).err().unwrap()
    };
    assert_eq!(refused(Platform::Other, "a b", &vec![]), SessionError::InvalidName);
    assert_eq!(refused(Platform::Other, "demo", &command), SessionError::Unsupported);
    assert_eq!(refused(Platform::Unix, "demo", &vec![]), SessionError::NoCommand);
}
