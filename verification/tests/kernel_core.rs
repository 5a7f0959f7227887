use monkeyos::host::HostCall;
use monkeyos::ipc::{IpcBus, Message, MessagePayload};
use monkeyos::kernel::{app_title_exec, kernel_create_window, kernel_wasi_print_char, Kernel};
use monkeyos::sys::ServiceRegistry;

fn msg(from: usize, to: usize, key: u32) -> Message {
    Message { sender: from, receiver: to, payload: MessagePayload::KeyPress { key_code: key } }
}

fn key_of(m: &Message) -> u32 {
    match m.payload {
        MessagePayload::KeyPress { key_code } => key_code,
        _ => panic!("not a key press"),
    }
}

#[test]
fn mailbox_is_first_in_first_out() {
    let mut bus = IpcBus::new();
    bus.send(msg(1, 5, 10));
    bus.send(msg(2, 5, 20));
    bus.send(msg(3, 5, 30));
    assert_eq!(bus.pending(5), 3);
    assert_eq!(key_of(&bus.receive(5).unwrap()), 10);
    assert_eq!(key_of(&bus.receive(5).unwrap()), 20);
    let third = bus.receive(5).unwrap();
    assert_eq!(third.sender, 3);
    assert_eq!(key_of(&third), 30);
    assert!(bus.receive(5).is_none());
}

#[test]
fn mailboxes_are_separate() {
    let mut bus = IpcBus::new();
    bus.send(msg(1, 2, 7));
    bus.send(msg(1, 3, 8));
    assert_eq!(bus.pending(4), 0);
    assert!(bus.receive(4).is_none());
    assert_eq!(key_of(&bus.receive(3).unwrap()), 8);
    assert_eq!(bus.pending(2), 1);
    assert_eq!(key_of(&bus.receive(2).unwrap()), 7);
}

#[test]
fn registry_lookup_after_register_and_replace() {
    let mut r = ServiceRegistry::new();
    assert_eq!(r.lookup("vfs"), None);
    r.register("vfs", 1);
    r.register("wm", 2);
    assert_eq!(r.lookup("vfs"), Some(1));
    assert_eq!(r.lookup("wm"), Some(2));
    r.register("vfs", 9);
    assert_eq!(r.lookup("vfs"), Some(9));
    assert_eq!(r.lookup("wm"), Some(2));
    assert_eq!(r.lookup("terminal"), None);
}

fn logs(k: &mut Kernel) -> Vec<String> {
    k.take_host_calls()
        .into_iter()
        .filter_map(|c| match c {
            HostCall::Log { text } => Some(text),
            _ => None,
        })
        .collect()
}

#[test]
fn new_kernel_logs_that_it_is_loaded() {
    let mut k = Kernel::new();
    assert_eq!(k.ticks(), 0);
    assert_eq!(k.next_pid(), 1);
    assert_eq!(logs(&mut k), vec!["[KERNEL] Microkernel loaded into memory...".to_string()]);
    assert!(logs(&mut k).is_empty());
}

#[test]
fn boot_starts_the_services_within_four_seconds() {
    let mut k = Kernel::new();
    for _ in 0..240 {
        k.tick();
    }
    assert_eq!(k.ticks(), 240);
    assert!(k.next_pid() > 1);
    let all = logs(&mut k);
    assert!(all.len() > 1);
    let id = kernel_create_window(&mut k, 10, 20, 300, 200, 5);
    assert_eq!(id, 10000);
    let id2 = kernel_create_window(&mut k, 10, 20, 300, 200, 1);
    assert_eq!(id2, 10001);
}

#[test]
fn create_window_before_boot_gives_zero() {
    let mut k = Kernel::new();
    assert_eq!(kernel_create_window(&mut k, 0, 0, 10, 10, 0), 0);
    kernel_wasi_print_char(&mut k, 1, 0x141);
    assert_eq!(k.ticks(), 0);
}

#[test]
fn app_titles() {
    assert_eq!(app_title_exec(0), "Terminal");
    assert_eq!(app_title_exec(4), "Image Viewer");
    assert_eq!(app_title_exec(6), "MIDI Player");
    assert_eq!(app_title_exec(7), "Task Manager");
    assert_eq!(app_title_exec(42), "Window");
}
