use monkeyos::apps::coreutils::{applet_of, contains_exec, grep_lines, grep_missing_message, grep_start, unknown_applet_message, Applet, GrepStart};

#[test]
fn applet_is_chosen_by_the_last_path_part() {
    assert_eq!(applet_of("/bin/ls"), (Applet::Ls, "ls".to_string()));
    assert_eq!(applet_of("cat"), (Applet::Cat, "cat".to_string()));
    assert_eq!(applet_of("/usr/local/bin/grep"), (Applet::Grep, "grep".to_string()));
    assert_eq!(applet_of("/bin/mv").0, Applet::Mv);
    assert_eq!(applet_of("/bin/tail").0, Applet::Tail);
    assert_eq!(applet_of("/bin/"), (Applet::Unknown, String::new()));
    assert_eq!(applet_of("/bin/LS").0, Applet::Unknown);
}

#[test]
fn unknown_applet_report() {
    assert_eq!(unknown_applet_message("frob"), "frob: command not found in coreutils multicall binary");
}

#[test]
fn grep_needs_pattern_and_file() {
    let only_name = vec!["grep".to_string()];
    assert!(matches!(grep_start(&only_name), GrepStart::Usage { message } if message == "Usage: grep <pattern> <file>"));
    let empty_file = vec!["grep".to_string(), "x".to_string(), String::new()];
    assert!(matches!(grep_start(&empty_file), GrepStart::Usage { .. }));
    let full = vec!["grep".to_string(), "an".to_string(), "/f.txt".to_string(), "extra".to_string()];
    match grep_start(&full) {
        GrepStart::Search { pattern, file } => {
            assert_eq!(pattern, "an");
            assert_eq!(file, "/f.txt");
        }
        _ => panic!("expected a search"),
    }
}

#[test]
fn grep_prints_matching_lines_in_order() {
    let text = "apple\nbanana\r\ncherry\nmango\n";
    assert_eq!(grep_lines(text, "an"), vec!["banana".to_string(), "mango".to_string()]);
    assert!(grep_lines(text, "zzz").is_empty());
    assert_eq!(grep_lines("a\n\nb", "").len(), 3);
    assert_eq!(grep_missing_message("/nope"), "grep: /nope: No such file or directory");
}

#[test]
fn substring_search() {
    let s: Vec<char> = "hello world".chars().collect();
    assert!(contains_exec(&s, &"o w".chars().collect::<Vec<char>>()));
    assert!(contains_exec(&s, &"hello world".chars().collect::<Vec<char>>()));
    assert!(!contains_exec(&s, &"world!".chars().collect::<Vec<char>>()));
    assert!(contains_exec(&s, &[]));
}
