use monkeyos::apps::calc::{is_float_exec, Calculator};
use monkeyos::apps::fileman::FileManager;
use monkeyos::apps::imgview::ImgView;
use monkeyos::apps::midiplayer::{play_midi, schedule_tracks, AudioEffect, MidiPlayer};
use monkeyos::apps::piano::Piano;
use monkeyos::apps::taskman::{parse_system_info_exec, TaskManager};
use monkeyos::host::HostCall;
use monkeyos::ui::list::DirEntry;
use monkeyos::ui::picker::FilePicker;
use monkeyos::ui::{app_type_for_title_exec, inside_exec, Button, DrawCmd, Window};

fn win() -> Window {
    Window::new(1, 0, 0, 400, 300)
}

fn click(c: &mut Calculator, x: i32, y: i32) {
    c.handle_mouse_down(x, y);
    c.handle_mouse_up(x, y);
}

#[test]
fn calculator_digits_operator_and_equals() {
    let mut c = Calculator::new(win());
    assert_eq!(c.display(), "0");
    click(&mut c, 20, 80); // 7
    assert_eq!(c.display(), "7");
    click(&mut c, 75, 190); // 2
    assert_eq!(c.display(), "72");
    click(&mut c, 185, 245); // +
    assert_eq!(c.display(), "0");
    click(&mut c, 75, 80); // 8
    click(&mut c, 130, 245); // =
    let job = c.take_compute().expect("an addition to work out");
    assert_eq!(job.lhs, "72");
    assert_eq!(job.op, '+');
    assert_eq!(job.rhs, "8");
    assert!(c.take_compute().is_none());
    c.set_result("80");
    assert_eq!(c.display(), "80");
    click(&mut c, 20, 245); // C
    assert_eq!(c.display(), "0");
}

#[test]
fn float_grammar() {
    let f = |s: &str| is_float_exec(&s.chars().collect::<Vec<char>>());
    assert!(f("12"));
    assert!(f("-1.5e3"));
    assert!(f(".5"));
    assert!(f("5."));
    assert!(f("inf"));
    assert!(f("+NaN"));
    assert!(!f("."));
    assert!(!f(""));
    assert!(!f("1e"));
    assert!(!f("1.2.3"));
}

#[test]
fn button_geometry_includes_edges() {
    assert!(inside_exec(10, 10, 10, 10, 5, 5));
    assert!(inside_exec(15, 15, 10, 10, 5, 5));
    assert!(!inside_exec(16, 15, 10, 10, 5, 5));
    let b = Button::new("OK", 40, 20);
    assert_eq!(b.text, "OK");
    assert!(!b.is_hovered && !b.is_pressed);
    assert_eq!(app_type_for_title_exec("Notepad"), 3);
    assert_eq!(app_type_for_title_exec("Snake"), 4);
}

#[test]
fn picker_lists_folder_then_takes_entries() {
    let mut p = FilePicker::new();
    assert!(!p.is_open());
    assert_eq!(p.path(), "/");
    assert_eq!(p.wanted_listing(), Some("/".to_string()));
    p.set_entries(vec![DirEntry { name: "docs".to_string(), is_dir: true }]);
    assert_eq!(p.wanted_listing(), None);
    p.open();
    assert!(p.is_open());
    assert_eq!(p.wanted_listing(), Some("/".to_string()));
    assert!(p.take_selected().is_none());
}

#[test]
fn file_manager_opens_folder_and_file() {
    let mut f = FileManager::new(Window::new(3, 0, 0, 400, 300));
    assert_eq!(f.window_id(), 3);
    assert_eq!(f.wanted_listing(), Some("/".to_string()));
    f.set_entries(vec![
        DirEntry { name: "home".to_string(), is_dir: true },
        DirEntry { name: "a.txt".to_string(), is_dir: false },
    ]);
    let cmds = f.tick(0, 0, 400, 300);
    assert!(!cmds.is_empty());
    let rows: Vec<(i32, i32)> = cmds
        .iter()
        .filter_map(|c| match c {
            DrawCmd::Text { x, y, text, .. } if text.contains("a.txt") => Some((*x, *y)),
            _ => None,
        })
        .collect();
    assert_eq!(rows.len(), 1);
    let (tx, ty) = rows[0];
    let (bx, by) = (tx - 5, ty - 5);
    f.handle_mouse_down(bx, by);
    let (redraw, exec) = f.handle_mouse_up(bx, by);
    assert_eq!(redraw, 1);
    match exec {
        Some(HostCall::Execve { args, .. }) => assert_eq!(args, b"/bin/notepad\0/a.txt\0".to_vec()),
        _ => panic!("a file click starts the notepad"),
    }
}

#[test]
fn piano_plays_the_topmost_key() {
    let mut p = Piano::new(win());
    // (55, 60) lies on both C (10..70) and C# (50..90); the black key is on top.
    assert!(p.handle_mouse_down(55, 60, 0, 0));
    let (redraw, note) = p.handle_mouse_up(55, 60, 0, 0);
    assert!(redraw);
    assert_eq!(note, Some(1));
    // Low on the white key only C is hit.
    p.handle_mouse_down(20, 200, 0, 0);
    assert_eq!(p.handle_mouse_up(20, 200, 0, 0), (true, Some(0)));
    // Released elsewhere: no note.
    p.handle_mouse_down(20, 200, 0, 0);
    assert_eq!(p.handle_mouse_up(400, 200, 0, 0), (true, None));
    assert_eq!(p.handle_mouse_up(400, 200, 0, 0), (false, None));
    let cmds = p.tick(0, 0, 520, 240);
    assert_eq!(cmds.len(), 1 + 2 * 13);
}

#[test]
fn midi_schedule_counts_two_ms_per_tick_per_track() {
    let tracks = vec![
        vec![(10, Some((60, 100))), (5, None), (0, Some((62, 0))), (1, Some((64, 90)))],
        vec![(3, Some((70, 1)))],
    ];
    let notes = schedule_tracks(&tracks);
    let got: Vec<(u8, u8, u32)> = notes
        .iter()
        .map(|n| match n {
            AudioEffect::ScheduleNote { key, vel, duration_ms, wave, delay_ms } => {
                assert_eq!((*duration_ms, *wave), (200, 1));
                (*key, *vel, *delay_ms)
            }
            _ => panic!("only notes"),
        })
        .collect();
    assert_eq!(got, vec![(60, 100, 20), (64, 90, 32), (70, 1, 6)]);
}

fn tiny_midi() -> Vec<u8> {
    let mut d = b"MThd".to_vec();
    d.extend_from_slice(&[0, 0, 0, 6, 0, 0, 0, 1, 0, 96]);
    d.extend_from_slice(b"MTrk");
    d.extend_from_slice(&[0, 0, 0, 12]);
    d.extend_from_slice(&[0x00, 0x90, 0x3C, 0x64, 0x60, 0x80, 0x3C, 0x40, 0x00, 0xFF, 0x2F, 0x00]);
    d
}

#[test]
fn midi_file_is_read_with_midly() {
    let notes = play_midi(&tiny_midi());
    assert_eq!(notes.len(), 1);
    assert!(matches!(notes[0], AudioEffect::ScheduleNote { key: 60, vel: 100, delay_ms: 0, .. }));
    assert!(play_midi(b"not a midi file").is_empty());
}

#[test]
fn midi_player_loads_launch_file_then_plays_and_stops() {
    let mut m = MidiPlayer::new(win(), Some("/music/a.mid".to_string()));
    assert_eq!(m.wanted_file(), Some("/music/a.mid".to_string()));
    let (redraw, fx) = m.file_loaded(Some(tiny_midi()));
    assert!(!redraw);
    assert!(fx.is_empty());
    assert_eq!(m.wanted_file(), None);
    m.tick(0, 0, 450, 350);
    // Play button at (160, 5), 100 by 30.
    assert_eq!(m.handle_mouse_down(170, 10), 1);
    let (r, fx) = m.handle_mouse_up(170, 10);
    assert_eq!(r, 1);
    assert_eq!(fx.len(), 1);
    m.handle_mouse_down(170, 10);
    let (_, fx) = m.handle_mouse_up(170, 10);
    assert!(matches!(fx.as_slice(), [AudioEffect::StopAudio]));
}

#[test]
fn image_viewer_with_argument_loads_it() {
    let (mut v, cmds) = ImgView::new(win(), Some("/img/cat.png".to_string()));
    assert!(v.image_loaded());
    assert!(matches!(cmds.as_slice(), [DrawCmd::LoadImage { id: 1, url }] if url == "/img/cat.png"));
    let frame = v.tick(0, 0, 450, 350);
    assert!(frame.iter().any(|c| matches!(c, DrawCmd::Image { id: 1, x: 0, y: 40, w: 450, h: 310 })));
    let (v2, cmds2) = ImgView::new(win(), None);
    assert!(!v2.image_loaded());
    assert!(cmds2.is_empty());
    assert_eq!(v2.wanted_listing(), Some("/".to_string()));
}

#[test]
fn task_manager_reads_the_host_report() {
    let ps = parse_system_info_exec("1;kernel;2048;system|2;sh;x;user|bad");
    assert_eq!(ps.len(), 2);
    assert_eq!((ps[0].pid, ps[0].name.as_str(), ps[0].memory_kb, ps[0].ptype.as_str()), (1, "kernel", 2, "system"));
    assert_eq!((ps[1].pid, ps[1].memory_kb), (2, 0));
    let mut t = TaskManager::new(win());
    assert!(t.wants_info());
    t.tick(0, 0, 400, 300, Some("7;calc;4096;app".to_string()));
    assert!(!t.wants_info());
}

fn click_text(f: &mut FileManager, needle: &str) -> Option<HostCall> {
    let cmds = f.tick(0, 0, 400, 500);
    let (tx, ty) = cmds
        .iter()
        .find_map(|c| match c {
            DrawCmd::Text { x, y, text, .. } if text.contains(needle) => Some((*x, *y)),
            _ => None,
        })
        .expect("the entry is shown");
    f.handle_mouse_down(tx - 5, ty - 5);
    f.handle_mouse_up(tx - 5, ty - 5).1
}

#[test]
fn file_manager_into_folder_and_back_up() {
    let mut f = FileManager::new(Window::new(3, 0, 0, 400, 500));
    f.set_entries(vec![DirEntry { name: "home".to_string(), is_dir: true }]);
    assert!(click_text(&mut f, "home").is_none());
    assert_eq!(f.wanted_listing(), Some("/home".to_string()));
    f.set_entries(vec![]);
    assert!(click_text(&mut f, "..").is_none());
    assert_eq!(f.wanted_listing(), Some("/".to_string()));
}
