use monkeyos::apps::notepad::cursor_blink_on;
use monkeyos::host::HostState;
use monkeyos::process::{ProcessManager, ServiceProcess};
use monkeyos::services::vfs::VfsService;
use monkeyos::services::wm::model::WindowState;
use monkeyos::services::wm::WindowManager;
use monkeyos::ipc::{IpcBus, MessagePayload};
use monkeyos::services::terminal::TerminalProcess;
use monkeyos::services::wm::tick::wrap_line_exec;
use monkeyos::sys::{ServiceRegistry, SyscallEnv};
use monkeyos::ui::picker::FilePicker;

fn editor_with(text: &str, cursor: usize) -> TerminalProcess {
    let mut t = TerminalProcess::new(5);
    t.edit_state = Some("/notes.txt".to_string());
    t.input_buffer = text.chars().collect();
    t.cursor_pos = cursor;
    t
}

fn press(t: &mut TerminalProcess, key: u32) {
    let reg = ServiceRegistry::new();
    let mut env = SyscallEnv { pid: 5, ipc: IpcBus::new(), registry: &reg, host: HostState::new() };
    t.handle_message(&mut env, MessagePayload::KeyPress { key_code: key });
}

fn text_of(t: &TerminalProcess) -> String {
    t.input_buffer.iter().collect()
}

#[test]
fn editor_arrow_up_counts_characters_into_a_byte_cursor() {
    let mut t = editor_with("é\nab", 5);
    press(&mut t, 1038);
    assert_eq!(t.cursor_pos, 1);
    assert_eq!(text_of(&t), "é\nab");
}

#[test]
fn editor_arrow_down_moves_by_bytes_of_the_next_line() {
    let mut t = editor_with("ab\né", 1);
    press(&mut t, 1040);
    assert_eq!(t.cursor_pos, 4);
    press(&mut t, 1037);
    assert_eq!(t.cursor_pos, 3);
    press(&mut t, 'x' as u32);
    assert_eq!(text_of(&t), "ab\nxé");
    assert_eq!(t.cursor_pos, 4);
}

#[test]
fn editor_backspace_and_delete_work_on_the_character_at_the_byte() {
    let mut t = editor_with("éa", 3);
    press(&mut t, 8);
    assert_eq!(text_of(&t), "é");
    assert_eq!(t.cursor_pos, 2);
    let mut d = editor_with("éab", 2);
    press(&mut d, 46);
    assert_eq!(text_of(&d), "éb");
    assert_eq!(d.cursor_pos, 2);
    press(&mut d, 1039);
    assert_eq!(d.cursor_pos, 3);
    press(&mut d, 1039);
    assert_eq!(d.cursor_pos, 3);
}

#[test]
fn editor_opens_a_file_with_the_cursor_after_its_last_byte() {
    let mut t = editor_with("", 0);
    let reg = ServiceRegistry::new();
    let mut env = SyscallEnv { pid: 5, ipc: IpcBus::new(), registry: &reg, host: HostState::new() };
    t.handle_message(
        &mut env,
        MessagePayload::FileContents { path: "/notes.txt".to_string(), content: "héllo".to_string() },
    );
    assert_eq!(text_of(&t), "héllo");
    assert_eq!(t.cursor_pos, 6);
}

#[test]
fn line_editor_type_then_backspace_restores_the_line() {
    let mut t = TerminalProcess::new(5);
    for c in "ls".chars() {
        press(&mut t, c as u32);
    }
    press(&mut t, 1037);
    press(&mut t, 'x' as u32);
    assert_eq!(text_of(&t), "lxs");
    press(&mut t, 8);
    assert_eq!(text_of(&t), "ls");
    assert_eq!(t.cursor_pos, 1);
}

#[test]
fn line_editor_history_up_then_down() {
    let mut t = TerminalProcess::new(5);
    for c in "pwd".chars() {
        press(&mut t, c as u32);
    }
    press(&mut t, 13);
    assert_eq!(t.history_index, 1);
    press(&mut t, 1038);
    assert_eq!(text_of(&t), "pwd");
    assert_eq!(t.cursor_pos, 3);
    assert_eq!(t.history_index, 0);
    press(&mut t, 1040);
    assert_eq!(text_of(&t), "");
    assert_eq!(t.cursor_pos, 0);
    assert_eq!(t.history_index, 1);
}

#[test]
fn cd_keeps_the_directory_normalised() {
    let mut t = TerminalProcess::new(5);
    for c in "cd /usr//./bin/../lib/".chars() {
        press(&mut t, c as u32);
    }
    press(&mut t, 13);
    assert_eq!(t.cwd, "/usr/lib");
    assert_eq!(t.prompt, "root@monkeyos:/usr/lib# ");
    for c in "cd ../../..".chars() {
        press(&mut t, c as u32);
    }
    press(&mut t, 13);
    assert_eq!(t.cwd, "/");
    assert_eq!(t.prompt, "root@monkeyos:/# ");
    for c in "cd ..".chars() {
        press(&mut t, c as u32);
    }
    press(&mut t, 13);
    assert_eq!(t.cwd, "/");
    for c in "cd tmp".chars() {
        press(&mut t, c as u32);
    }
    press(&mut t, 13);
    assert_eq!(t.cwd, "/tmp");
    for c in "cd".chars() {
        press(&mut t, c as u32);
    }
    press(&mut t, 13);
    assert_eq!(t.cwd, "/");
    assert_eq!(t.prompt, "root@monkeyos:/# ");
}

#[test]
fn terminal_text_wraps_by_bytes() {
    let pieces = wrap_line_exec(&"héllo wörld".to_string(), 4);
    assert_eq!(pieces, vec!["hél", "lo w", "örl", "d"]);
    let ascii = wrap_line_exec(&"abcdefghij".to_string(), 4);
    assert_eq!(ascii, vec!["abcd", "efgh", "ij"]);
}

#[test]
fn picker_into_a_folder_and_back_up() {
    let mut p = FilePicker::new();
    assert!(p.handle_click(&"📁 docs".chars().collect()));
    assert_eq!(p.path(), "/docs");
    assert!(p.handle_click(&"📁 old".chars().collect()));
    assert_eq!(p.path(), "/docs/old");
    assert!(p.handle_click(&"⬆️ ..".chars().collect()));
    assert_eq!(p.path(), "/docs");
    assert!(p.handle_click(&"⬆️ ..".chars().collect()));
    assert_eq!(p.path(), "/");
}

#[test]
fn maximise_then_restore_brings_the_window_back() {
    let reg = ServiceRegistry::new();
    let mut env = SyscallEnv { pid: 1, ipc: IpcBus::new(), registry: &reg, host: HostState::new() };
    let mut wm = WindowManager::new(1, 2, 1024, 768);
    wm.handle_message(
        &mut env,
        MessagePayload::CreateWindow { id: 7, x: 100, y: 100, w: 400, h: 300, title: "Notes".to_string(), owner: 9 },
    );
    wm.handle_message(&mut env, MessagePayload::MouseMove { x: 460, y: 110 });
    wm.handle_message(&mut env, MessagePayload::MouseButton { down: true });
    {
        let w = wm.windows.last().unwrap();
        assert!(w.state == WindowState::Maximized);
        assert_eq!((w.x, w.y, w.w, w.h), (0, 0, 1024, 698));
        assert_eq!(w.restore_rect, Some((100, 100, 400, 300)));
    }
    wm.handle_message(&mut env, MessagePayload::MouseButton { down: false });
    wm.handle_message(&mut env, MessagePayload::MouseMove { x: 984, y: 10 });
    wm.handle_message(&mut env, MessagePayload::MouseButton { down: true });
    let w = wm.windows.last().unwrap();
    assert!(w.state == WindowState::Normal);
    assert_eq!((w.x, w.y, w.w, w.h), (100, 100, 400, 300));
}

#[test]
fn spawns_hand_out_pids_in_order() {
    let mut pm = ProcessManager::new();
    let a = pm.spawn(|p| ServiceProcess::Vfs(VfsService::new(p)));
    let b = pm.spawn(|p| ServiceProcess::Vfs(VfsService::new(p)));
    let c = pm.spawn(|p| ServiceProcess::Terminal(TerminalProcess::new(p)));
    assert_eq!((a, b, c), (1, 2, 3));
    assert_eq!(pm.next_pid(), 4);
}

#[test]
fn notepad_cursor_blinks_each_second_and_stays_after_typing() {
    assert!(cursor_blink_on(10_200, 0));
    assert!(!cursor_blink_on(10_700, 0));
    assert!(cursor_blink_on(10_700, 10_400));
    assert!(!cursor_blink_on(10_700, 10_200));
    assert!(cursor_blink_on(600, 900));
}
