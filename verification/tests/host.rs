use cellshot::host::host_answer;

#[test]
fn questions_are_answered() {
    assert_eq!(host_answer(b"\x1b[c", true), b"\x1b[?62;22c");
    assert_eq!(host_answer(b"text\x1b[>0qmore", true), b"\x1bP>|cellshot\x1b\\");
    assert_eq!(
        host_answer(b"\x1b_Gi=31337,s=1,v=1,a=q,t=d,f=24;AAAA\x1b\\\x1b[c", true),
        b"\x1b[?62;22c\x1b_Gi=31337;ENOTSUP\x1b\\"
    );
}

#[test]
fn host_speaks_only_when_asked() {
    assert_eq!(host_answer(b"\x1b[c\x1b[>0q", false), b"");
    assert_eq!(host_answer(b"", true), b"");
    assert_eq!(host_answer(b"\x1b[", true), b"");
    assert_eq!(host_answer(b"\x1b[2c and \x1b[>q", true), b"");
}
