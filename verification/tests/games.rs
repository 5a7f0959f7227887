use monkeyos::text::{decimal_exec, parse_u32_exec, trim_exec};
use monkeyos::apps::notepad::Notepad;
use monkeyos::apps::snake::{highscore_path_exec, is_occupied, rand, rand_range, spawn_food, Difficulty, Rng, SnakeEffect, SnakeGame};
use monkeyos::host::HostCall;
use monkeyos::ui::Window;

#[test]
fn xorshift_step_from_one() {
    let mut r = Rng { state: 1 };
    assert_eq!(rand(&mut r), 270369);
    assert_eq!(r.state, 270369);
}

#[test]
fn rand_range_stays_in_range_and_empty_range_draws_nothing() {
    let mut r = Rng { state: 1 };
    assert_eq!(rand_range(&mut r, 0, 10), 9);
    assert_eq!(r.state, 270369);
    assert_eq!(rand_range(&mut r, 5, 5), 5);
    assert_eq!(r.state, 270369);
    let mut r = Rng { state: 12345 };
    for _ in 0..1000 {
        let v = rand_range(&mut r, -3, 4);
        assert!((-3..4).contains(&v));
    }
    let mut r = Rng { state: 99 };
    let v = rand_range(&mut r, i32::MIN, i32::MAX);
    assert!(v < i32::MAX);
}

#[test]
fn occupancy_checks_snake_and_obstacles() {
    let snake = vec![(3, 4), (3, 5)];
    let obstacles = vec![((1, 1), (0, 1))];
    assert!(is_occupied(3, 5, &snake, &obstacles));
    assert!(is_occupied(1, 1, &snake, &obstacles));
    assert!(!is_occupied(0, 1, &snake, &obstacles));
    assert!(!is_occupied(4, 3, &snake, &obstacles));
}

#[test]
fn food_lands_on_a_free_cell_of_the_grid() {
    let mut snake = Vec::new();
    for x in 0..30 {
        for y in 0..19 {
            snake.push((x, y));
        }
    }
    let obstacles = vec![((0, 19), (1, 0))];
    let mut r = Rng { state: 777 };
    let (cell, _) = spawn_food(&mut r, &snake, &obstacles).expect("a free cell exists");
    assert!(cell.0 >= 1 && cell.0 < 30);
    assert_eq!(cell.1, 19);
    assert!(!is_occupied(cell.0, cell.1, &snake, &obstacles));
}

#[test]
fn highscore_files_per_mode() {
    assert_eq!(highscore_path_exec(false, Difficulty::Medium), "/snake_hs_solid_medium.txt");
    assert_eq!(highscore_path_exec(true, Difficulty::Easy), "/snake_hs_wrap_easy.txt");
}

#[test]
fn snake_menu_keys_and_start() {
    let mut g = SnakeGame::new(Window::new(2, 0, 0, 500, 400));
    assert_eq!(g.wanted_highscore(), Some("/snake_hs_solid_medium.txt".to_string()));
    g.set_highscore(Some(" 42\n".to_string()));
    assert_eq!(g.wanted_highscore(), None);
    let (redraw, fx) = g.handle_key_down(119);
    assert!(redraw && fx.is_empty());
    assert_eq!(g.wanted_highscore(), Some("/snake_hs_wrap_medium.txt".to_string()));
    let (redraw, fx) = g.handle_key_down(13);
    assert!(redraw);
    assert!(matches!(fx.first(), Some(SnakeEffect::ClearParticles)));
    assert!(matches!(fx.last(), Some(SnakeEffect::Tone { freq: 440, duration_ms: 100, wave: 0 })));
    assert!(!g.tick_would_panic());
    let frame = g.tick(0, 0, 500, 400);
    assert!(!frame.under.is_empty());
    assert!(!g.handle_key_up(13));
}

fn typed(n: &mut Notepad, s: &str) {
    for c in s.chars() {
        assert!(!n.key_would_panic(c as u32));
        let r = n.handle_key_down(c as u32);
        assert!(r.typed);
        assert_eq!(r.redraw, 1);
    }
}

fn text(n: &Notepad) -> Vec<String> {
    (0..n.line_count()).map(|i| n.line(i)).collect()
}

#[test]
fn notepad_typing_enter_and_backspace() {
    let mut n = Notepad::new(Window::new(4, 0, 0, 600, 400), None);
    assert_eq!(n.status(), "No file opened");
    typed(&mut n, "hello");
    assert_eq!(n.cursor(), (0, 5));
    assert_eq!(n.status(), "Edited");
    n.handle_key_down(1037);
    n.handle_key_down(1037);
    n.handle_key_down(13);
    assert_eq!(text(&n), vec!["hel".to_string(), "lo".to_string()]);
    assert_eq!(n.cursor(), (1, 0));
    n.handle_key_down(8);
    assert_eq!(text(&n), vec!["hello".to_string()]);
    assert_eq!(n.cursor(), (0, 3));
    n.handle_key_down(8);
    assert_eq!(text(&n), vec!["helo".to_string()]);
    let r = n.handle_key_down(5000);
    assert!(r.typed);
    assert_eq!(r.redraw, 0);
}

#[test]
fn notepad_opens_a_file_and_saves_it() {
    let mut n = Notepad::new(Window::new(4, 0, 0, 600, 400), Some("/notes.txt".to_string()));
    assert_eq!(n.wanted_file(), Some("/notes.txt".to_string()));
    n.file_loaded(Some("one\r\ntwo\n".to_string()));
    assert_eq!(n.wanted_file(), None);
    assert_eq!(text(&n), vec!["one".to_string(), "two".to_string()]);
    assert_eq!(n.status(), "Opened /notes.txt");
    let mut m = Notepad::new(Window::new(4, 0, 0, 600, 400), Some("/missing".to_string()));
    m.file_loaded(None);
    assert_eq!(m.status(), "Error opening /missing");
    assert_eq!(text(&m), vec![String::new()]);
    // Save button: 80 by 25 at (100, 33).
    n.handle_mouse_down(110, 40);
    let up = n.handle_mouse_up(110, 40);
    assert_eq!(up.redraw, 1);
    match up.write {
        Some(HostCall::WriteFile { path, content }) => {
            assert_eq!(path, "/notes.txt");
            assert_eq!(content, "one\ntwo");
        }
        _ => panic!("Save writes the file"),
    }
    assert_eq!(n.status(), "Saved /notes.txt");
}

#[test]
fn written_high_score_reads_back() {
    for n in [0u32, 7, 42, 1234, u32::MAX] {
        let text: Vec<char> = decimal_exec(n).chars().collect();
        assert_eq!(parse_u32_exec(&trim_exec(&text)), Some(n));
    }
    assert_eq!(decimal_exec(305), "305");
}
