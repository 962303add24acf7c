use cellshot::input::{capture_input, session_input, InputError};

fn events(names: &[&str]) -> Vec<String> {
    names.iter().map(|name| name.to_string()).collect()
}

#[test]
fn preserves_ordered_input_events() {
    assert_eq!(
        capture_input(&["ctrl-p".to_owned(), "text:model".to_owned(), "enter".to_owned()]).unwrap(),
        b"\x10model\r"
    );
}

#[test]
fn rejects_unsupported_input_events() {
    assert!(capture_input(&["space".to_owned()]).is_err());
}

#[test]
fn paced_session_input_splits_text_without_splitting_keys() {
    assert_eq!(
        session_input(&["text:hi".to_owned(), "enter".to_owned()], true).unwrap(),
        vec![b"h".to_vec(), b"i".to_vec(), b"\r".to_vec()]
    );
}

#[test]
fn every_key_has_its_bytes() {
    let keys: [(&str, &[u8]); 18] = [
        ("ctrl-p", b"\x10"),
        ("enter", b"\r"),
        ("escape", b"\x1b"),
        ("esc", b"\x1b"),
        ("up", b"\x1b[A"),
        ("down", b"\x1b[B"),
        ("left", b"\x1b[D"),
        ("right", b"\x1b[C"),
        ("tab", b"\t"),
        ("shift-tab", b"\x1b[Z"),
        ("backspace", b"\x7f"),
        ("delete", b"\x1b[3~"),
        ("home", b"\x1b[H"),
        ("end", b"\x1b[F"),
        ("page-up", b"\x1b[5~"),
        ("page-down", b"\x1b[6~"),
        ("ctrl-c", b"\x03"),
        ("ctrl-z", b"\x1a"),
    ];
    for (name, bytes) in keys {
        assert_eq!(capture_input(&events(&[name])).unwrap(), bytes);
    }
}

#[test]
fn text_is_typed_as_it_is() {
    assert_eq!(
        capture_input(&events(&["text:", "text:text:enter", "text:\u{e9}\u{20ac}\u{1f600}"])).unwrap(),
        "text:enter\u{e9}\u{20ac}\u{1f600}".as_bytes()
    );
    assert_eq!(capture_input(&[]).unwrap(), Vec::<u8>::new());
}

#[test]
fn first_unsupported_event_is_named() {
    let error = capture_input(&events(&["up", "spa\"ce", "nothing"])).unwrap_err();
    assert_eq!(error, InputError { event: "spa\"ce".to_owned() });
    assert_eq!(
        error.message(),
        "unsupported --send event \"spa\\\"ce\"; use text:<value>, ctrl-a through ctrl-z, enter, escape, up, down, left, right, tab, shift-tab, backspace, delete, home, end, page-up, or page-down"
    );
    assert_eq!(session_input(&events(&["text:a", "Enter"]), true).unwrap_err().event, "Enter");
    assert_eq!(session_input(&events(&["text:a", "Enter"]), false).unwrap_err().event, "Enter");
}

#[test]
fn unpaced_input_is_one_burst() {
    assert_eq!(
        session_input(&events(&["text:hi", "enter"]), false).unwrap(),
        vec![b"hi\r".to_vec()]
    );
    assert_eq!(session_input(&[], false).unwrap(), vec![Vec::<u8>::new()]);
    assert_eq!(session_input(&[], true).unwrap(), Vec::<Vec<u8>>::new());
}

#[test]
fn pacing_keeps_every_byte() {
    let list = events(&["text:a\u{e9}\u{20ac}\u{1f600}\u{7ff}\u{800}\u{ffff}", "up", "text:z"]);
    let burst = capture_input(&list).unwrap();
    let paced = session_input(&list, true).unwrap();
    assert_eq!(paced.concat(), burst);
    assert_eq!(paced.len(), 7 + 1 + 1);
    assert_eq!(paced[3], "\u{1f600}".as_bytes());
}

#[test]
fn events_keep_their_order() {
    let first = events(&["text:one", "down"]);
    let second = events(&["tab", "text:two"]);
    let mut both = first.clone();
    both.extend(second.clone());
    let mut bytes = capture_input(&first).unwrap();
    bytes.extend(capture_input(&second).unwrap());
    assert_eq!(capture_input(&both).unwrap(), bytes);
    assert_eq!(bytes, b"one\x1b[B\ttwo");
}

#[test]
fn every_letter_goes_with_control() {
    for letter in b'a'..=b'z' {
        let name = format!("ctrl-{}", char::from(letter));
        assert_eq!(capture_input(&[name]).unwrap(), [letter - b'a' + 1]);
    }
    for name in ["ctrl-", "ctrl-A", "ctrl-1", "ctrl-aa", "ctrl-\u{e9}", "Ctrl-a"] {
        assert!(capture_input(&events(&[name])).is_err());
    }
}
