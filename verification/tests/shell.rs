use monkeyos::apps::sh::{execute_command, process_line, ShellCall};

fn chars(s: &str) -> Vec<char> {
    s.chars().collect()
}

fn opt(s: &Option<String>) -> Option<&str> {
    s.as_deref()
}

fn check(c: &ShellCall, args: &[u8], stdin: Option<&str>, stdout: Option<&str>, fail: Option<&str>) {
    assert_eq!(c.args, args.to_vec());
    assert_eq!(c.cwd, "/home");
    assert_eq!(opt(&c.stdin), stdin);
    assert_eq!(opt(&c.stdout), stdout);
    assert_eq!(opt(&c.on_failure), fail);
}

#[test]
fn blank_and_comment_lines_run_nothing() {
    assert!(process_line("", "/home").is_empty());
    assert!(process_line("   \t ", "/home").is_empty());
    assert!(process_line("  # ls -l", "/home").is_empty());
}

#[test]
fn simple_command_runs_from_bin() {
    let calls = process_line("  ls -l /tmp  ", "/home");
    assert_eq!(calls.len(), 1);
    check(&calls[0], b"/bin/ls\0-l\0/tmp\0", None, None, Some("ls: command not found"));
}

#[test]
fn output_redirection_without_spaces() {
    let calls = process_line("echo hi>out.txt", "/home");
    assert_eq!(calls.len(), 1);
    check(&calls[0], b"/bin/echo\0hi\0", None, Some("out.txt"), Some("echo: command not found"));
}

#[test]
fn input_redirection_and_last_redirection_wins() {
    let calls = process_line("sort < a.txt > b.txt > c.txt", "/home");
    assert_eq!(calls.len(), 1);
    check(&calls[0], b"/bin/sort\0", Some("a.txt"), Some("c.txt"), Some("sort: command not found"));
}

#[test]
fn trailing_sign_stays_an_argument() {
    let calls = process_line("echo >", "/home");
    assert_eq!(calls.len(), 1);
    check(&calls[0], b"/bin/echo\0>\0", None, None, Some("echo: command not found"));
}

#[test]
fn only_redirections_run_nothing() {
    assert!(process_line("> out.txt", "/home").is_empty());
}

#[test]
fn pipeline_of_two_connects_through_a_file_and_removes_it() {
    let calls = process_line("cat notes.txt | wc -l", "/home");
    assert_eq!(calls.len(), 3);
    check(&calls[0], b"/bin/cat\0notes.txt\0", None, Some("/tmp/pipe_0"), Some("cat: command not found"));
    check(&calls[1], b"/bin/wc\0-l\0", Some("/tmp/pipe_0"), None, Some("wc: command not found"));
    check(&calls[2], b"/bin/rm\0/tmp/pipe_0\0", None, None, None);
}

#[test]
fn pipeline_of_three_stages() {
    let calls = process_line("ls|sort|head", "/home");
    assert_eq!(calls.len(), 5);
    check(&calls[0], b"/bin/ls\0", None, Some("/tmp/pipe_0"), Some("ls: command not found"));
    check(&calls[1], b"/bin/sort\0", Some("/tmp/pipe_0"), Some("/tmp/pipe_1"), Some("sort: command not found"));
    check(&calls[2], b"/bin/head\0", Some("/tmp/pipe_1"), None, Some("head: command not found"));
    check(&calls[3], b"/bin/rm\0/tmp/pipe_0\0", None, None, None);
    check(&calls[4], b"/bin/rm\0/tmp/pipe_1\0", None, None, None);
}

#[test]
fn empty_pipeline_stage_is_skipped_but_its_pipe_removed() {
    let calls = process_line("ls | ", "/home");
    assert_eq!(calls.len(), 2);
    check(&calls[0], b"/bin/ls\0", None, Some("/tmp/pipe_0"), Some("ls: command not found"));
    check(&calls[1], b"/bin/rm\0/tmp/pipe_0\0", None, None, None);
}

#[test]
fn execute_command_keeps_the_given_files() {
    let c = execute_command(&chars("grep x"), "/home", Some("in".to_string()), Some("out".to_string())).unwrap();
    check(&c, b"/bin/grep\0x\0", Some("in"), Some("out"), Some("grep: command not found"));
    assert!(execute_command(&chars("   "), "/home", None, None).is_none());
}
