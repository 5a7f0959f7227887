use monkeyos::apps::beep::beep_settings;
use monkeyos::apps::edit::{byte_len, edit_banner, saved_message, EditSession};
use monkeyos::wasi::{handle_fd_write, is_utf8};

fn args(v: &[&str]) -> Vec<String> {
    v.iter().map(|s| s.to_string()).collect()
}

#[test]
fn beep_defaults_and_parsed_values() {
    assert_eq!(beep_settings(&args(&["beep"])), (200, 0));
    assert_eq!(beep_settings(&args(&["beep", "880.5"])), (200, 0));
    assert_eq!(beep_settings(&args(&["beep", "440", "500", "2"])), (500, 2));
    assert_eq!(beep_settings(&args(&["beep", "440", "-5", "+3"])), (200, 3));
    assert_eq!(beep_settings(&args(&["beep", "440", "99999999999", "x"])), (200, 0));
}

#[test]
fn edit_banner_shows_content_between_rules() {
    assert_eq!(
        edit_banner("a.txt", ""),
        "Editing: a.txt\nType your text below. Type '.exit' on a new line to save and quit.\n"
    );
    assert_eq!(
        edit_banner("a.txt", "one"),
        "Editing: a.txt\n--- Existing Content ---\none\n------------------------\nType your text below. Type '.exit' on a new line to save and quit.\n"
    );
    assert_eq!(
        edit_banner("a.txt", "one\n"),
        "Editing: a.txt\n--- Existing Content ---\none\n------------------------\nType your text below. Type '.exit' on a new line to save and quit.\n"
    );
}

#[test]
fn edit_session_appends_lines_until_exit() {
    let mut s = EditSession::new("old\n".to_string());
    assert!(s.feed_line("first"));
    assert!(s.feed_line(""));
    assert!(!s.feed_line(".exit"));
    assert_eq!(s.final_content(), "old\nfirst\n\n");
    assert_eq!(saved_message("héllo", "f.txt"), "Saved 6 bytes to f.txt");
    assert_eq!(byte_len("日本"), 6);
}

#[test]
fn fd_write_to_stdout_prints_utf8_buffers() {
    let bufs = vec![b"hi ".to_vec(), vec![0xff, 0xfe], "é".as_bytes().to_vec()];
    let r = handle_fd_write(1, &bufs, Some(7));
    assert_eq!(r.errno, 0);
    assert_eq!(r.nwritten, Some(7));
    assert_eq!(r.prints, vec![(7, b"hi ".to_vec()), (7, "é".as_bytes().to_vec())]);
}

#[test]
fn fd_write_without_terminal_goes_to_zero_and_bad_fd_fails() {
    let bufs = vec![b"x".to_vec()];
    let r = handle_fd_write(2, &bufs, None);
    assert_eq!(r.prints, vec![(0, b"x".to_vec())]);
    let bad = handle_fd_write(3, &bufs, Some(1));
    assert_eq!(bad.errno, 8);
    assert!(bad.prints.is_empty());
    assert_eq!(bad.nwritten, None);
}

#[test]
fn utf8_check_agrees_with_std() {
    let cases: Vec<Vec<u8>> = vec![
        vec![],
        b"plain".to_vec(),
        "héllo wörld".as_bytes().to_vec(),
        "😀".as_bytes().to_vec(),
        vec![0xc0, 0x80],
        vec![0xe0, 0x80, 0x80],
        vec![0xed, 0xa0, 0x80],
        vec![0xe2, 0x82],
        vec![0xf4, 0x90, 0x80, 0x80],
        vec![0x80],
        vec![0xff],
        vec![b'a', 0xc3],
    ];
    let expected = [true, true, true, true, false, false, false, false, false, false, false, false];
    for (bytes, want) in cases.iter().zip(expected.iter()) {
        assert_eq!(is_utf8(bytes), *want);
        assert_eq!(std::str::from_utf8(bytes).is_ok(), *want);
    }
}
