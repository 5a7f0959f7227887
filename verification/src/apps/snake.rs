//! Snake, with special foods, moving obstacles, portals, sprinting and a
//! high score per wall mode and difficulty.
//!
//! Arithmetic wraps as in a release build. Stamina is counted in half
//! points (200 is full); particles are handed to the host as the three
//! random numbers each one is made from.

use crate::ipc::Rgba;
use crate::services::wm::arith::{add_w, mul_w, sub_w, wadd, wmul, wsub};
use crate::text::{copy_str, trim, trim_exec, chars_of};
use crate::ui::{draw_views, push_rect, push_text, rect_v, text_v, DrawCmd, DrawView, Window};
use vstd::prelude::*;

verus! {

pub const GRID_W: i32 = 30;
pub const GRID_H: i32 = 20;
pub const CELL_SIZE: i32 = 16;
pub const OFFSET_X: i32 = 10;
pub const OFFSET_Y: i32 = 40;

#[derive(Clone, Copy, PartialEq, Eq, Structural, Debug)]
pub enum Direction {
    Up,
    Down,
    Left,
    Right,
}

#[derive(Clone, Copy, PartialEq, Eq, Structural, Debug)]
pub enum FoodType {
    Normal,
    Golden,
    Poison,
    Dynamite,
    GhostFood,
    Magnet,
}

#[derive(Clone, Copy, PartialEq, Eq, Structural, Debug)]
pub enum GameState {
    MainMenu,
    Playing,
    GameOver,
}

#[derive(Clone, Copy, PartialEq, Eq, Structural, Debug)]
pub enum Difficulty {
    Easy,
    Medium,
    Hard,
}

/// One step of the xorshift generator.
pub open spec fn xorshift(s: u32) -> u32 {
    let a = s ^ (s << 13u32);
    let b = a ^ (a >> 17u32);
    b ^ (b << 5u32)
}

/// A number in `min..max` (just `min` when the range is empty) and the
/// generator's next state; an empty range draws nothing.
pub open spec fn rand_range_spec(s: u32, min: i32, max: i32) -> (i32, u32) {
    if max <= min {
        (min, s)
    } else {
        let r = xorshift(s);
        let d = (max - min) as u32;
        (wadd(min, (r % d) as i32), r)
    }
}

/// The game's random number generator.
pub struct Rng {
    pub state: u32,
}

/// The next random number.
pub fn rand(rng: &mut Rng) -> (r: u32)
    ensures
        r == xorshift(old(rng).state),
        final(rng).state == r,
{
    let mut s = rng.state;
    s = s ^ (s << 13u32);
    s = s ^ (s >> 17u32);
    s = s ^ (s << 5u32);
    rng.state = s;
    s
}

/// A random number in `min..max`; `min` when the range is empty.
pub fn rand_range(rng: &mut Rng, min: i32, max: i32) -> (v: i32)
    ensures
        (v, final(rng).state) == rand_range_spec(old(rng).state, min, max),
{
    if max <= min {
        return min;
    }
    let r = rand(rng);
    let d: u32 = (max as i64 - min as i64) as u32;
    assert(d == (max - min) as u32);
    add_w(min, (r % d) as i32)
}

pub type Cell = (i32, i32);

/// An obstacle's cell and its velocity.
pub type Obstacle = ((i32, i32), (i32, i32));

/// The cell is taken by the snake or by an obstacle.
pub open spec fn occupied(x: i32, y: i32, snake: Seq<Cell>, obstacles: Seq<Obstacle>) -> bool {
    snake.contains((x, y)) || exists|i: int| 0 <= i < obstacles.len() && #[trigger] obstacles[i].0 == (x, y)
}

/// Whether `(x, y)` is taken by the snake or by an obstacle.
pub fn is_occupied(x: i32, y: i32, snake: &[Cell], obstacles: &[Obstacle]) -> (r: bool)
    ensures
        r == occupied(x, y, snake@, obstacles@),
{
    let mut i: usize = 0;
    while i < snake.len()
        invariant
            i <= snake@.len(),
            forall|j: int| 0 <= j < i ==> snake@[j] != (x, y),
        decreases snake@.len() - i,
    {
        if snake[i].0 == x && snake[i].1 == y {
            assert(snake@[i as int] == (x, y));
            return true;
        }
        i = i + 1;
    }
    let mut k: usize = 0;
    while k < obstacles.len()
        invariant
            k <= obstacles@.len(),
            forall|j: int| 0 <= j < k ==> obstacles@[j].0 != (x, y),
        decreases obstacles@.len() - k,
    {
        if obstacles[k].0.0 == x && obstacles[k].0.1 == y {
            assert(obstacles@[k as int].0 == (x, y));
            return true;
        }
        k = k + 1;
    }
    proof {
        if snake@.contains((x, y)) {
            let j = choose|j: int| 0 <= j < snake@.len() && snake@[j] == (x, y);
            assert(snake@[j] != (x, y));
        }
    }
    false
}

/// The kind of a new food, from a roll in `0..100`.
pub open spec fn food_kind(r: i32, n_obstacles: nat) -> FoodType {
    if n_obstacles >= 3 && r < 25 {
        FoodType::Dynamite
    } else if r < 10 && n_obstacles > 0 {
        FoodType::Dynamite
    } else if r < 20 {
        FoodType::Golden
    } else if r < 30 {
        FoodType::Poison
    } else if r < 40 {
        FoodType::GhostFood
    } else if r < 50 {
        FoodType::Magnet
    } else {
        FoodType::Normal
    }
}

/// How many cells the food search tries: more than the generator's period
/// allows to be different, so a search that fails would never end.
pub open spec fn food_tries() -> nat {
    0x1_0000_0000
}

/// The food search: random cells until a free one is found, then a roll
/// for its kind; `None` after `tries` taken cells.
pub open spec fn spawn_food_spec(s: u32, snake: Seq<Cell>, obstacles: Seq<Obstacle>, tries: nat) -> (Option<(Cell, FoodType)>, u32)
    decreases tries,
{
    if tries == 0 {
        (None, s)
    } else {
        let (fx, s1) = rand_range_spec(s, 0i32, 30i32);
        let (fy, s2) = rand_range_spec(s1, 0i32, 20i32);
        if !occupied(fx, fy, snake, obstacles) {
            let (r, s3) = rand_range_spec(s2, 0i32, 100i32);
            (Some(((fx, fy), food_kind(r, obstacles.len()))), s3)
        } else {
            spawn_food_spec(s2, snake, obstacles, (tries - 1) as nat)
        }
    }
}

/// A number drawn from a non-empty range `min..max` lies in it.
pub proof fn law_rand_range_in_bounds(s: u32, min: i32, max: i32)
    requires
        min < max,
    ensures
        min <= rand_range_spec(s, min, max).0 < max,
{
    let r = xorshift(s);
    let d = (max - min) as u32;
    let m = r % d;
    assert(d > 0) by (bit_vector)
        requires
            min < max,
            d == (max - min) as u32;
    assert(m < d);
    assert(min <= ((min + (m as i32)) as i32) < max) by (bit_vector)
        requires
            min < max,
            d == (max - min) as u32,
            m < d;
}

/// A food that the search places lies on the grid, on a cell that neither
/// the snake nor an obstacle takes.
pub proof fn law_food_lands_free(s: u32, snake: Seq<Cell>, obstacles: Seq<Obstacle>, tries: nat)
    ensures
        spawn_food_spec(s, snake, obstacles, tries).0 matches Some((c, _)) ==> {
            &&& 0 <= c.0 < GRID_W
            &&& 0 <= c.1 < GRID_H
            &&& !occupied(c.0, c.1, snake, obstacles)
        },
    decreases tries,
{
    if tries > 0 {
        let (fx, s1) = rand_range_spec(s, 0i32, 30i32);
        let (fy, s2) = rand_range_spec(s1, 0i32, 20i32);
        law_rand_range_in_bounds(s, 0, 30);
        law_rand_range_in_bounds(s1, 0, 20);
        law_food_lands_free(s2, snake, obstacles, (tries - 1) as nat);
    }
}

/// Picks a free cell for the next food and its kind.
pub fn spawn_food(rng: &mut Rng, snake: &[Cell], obstacles: &[Obstacle]) -> (r: Option<(Cell, FoodType)>)
    ensures
        (r, final(rng).state) == spawn_food_spec(old(rng).state, snake@, obstacles@, food_tries()),
{
    let mut tries: u64 = 0x1_0000_0000;
    while tries > 0
        invariant
            tries <= 0x1_0000_0000,
            spawn_food_spec(rng.state, snake@, obstacles@, tries as nat) == spawn_food_spec(
                old(rng).state,
                snake@,
                obstacles@,
                food_tries(),
            ),
        decreases tries,
    {
        let fx = rand_range(rng, 0, GRID_W);
        let fy = rand_range(rng, 0, GRID_H);
        if !is_occupied(fx, fy, snake, obstacles) {
            let r = rand_range(rng, 0, 100);
            let kind = if obstacles.len() >= 3 && r < 25 {
                FoodType::Dynamite
            } else if r < 10 && obstacles.len() > 0 {
                FoodType::Dynamite
            } else if r < 20 {
                FoodType::Golden
            } else if r < 30 {
                FoodType::Poison
            } else if r < 40 {
                FoodType::GhostFood
            } else if r < 50 {
                FoodType::Magnet
            } else {
                FoodType::Normal
            };
            return Some(((fx, fy), kind));
        }
        tries = tries - 1;
    }
    None
}

pub open spec fn clamp_i(v: i32, lo: i32, hi: i32) -> i32 {
    if v < lo { lo } else if v > hi { hi } else { v }
}

/// The obstacle search: up to `tries` random cells (near `base` when
/// clustering), the first free one that is not the food becomes an
/// obstacle that, half of the time, moves right or down.
pub open spec fn obstacle_tries(
    s: u32,
    snake: Seq<Cell>,
    obstacles: Seq<Obstacle>,
    food: Cell,
    cluster: bool,
    base: Cell,
    tries: nat,
) -> (Option<Obstacle>, u32)
    decreases tries,
{
    if tries == 0 {
        (None, s)
    } else {
        let (ox0, s1) = rand_range_spec(s, 1i32, 29i32);
        let (oy0, s2) = rand_range_spec(s1, 1i32, 19i32);
        let (dx, s3) = if cluster { rand_range_spec(s2, -2i32, 3i32) } else { (0i32, s2) };
        let (dy, s4) = if cluster { rand_range_spec(s3, -2i32, 3i32) } else { (0i32, s3) };
        let ox = if cluster { clamp_i(wadd(base.0, dx), 1i32, 28i32) } else { ox0 };
        let oy = if cluster { clamp_i(wadd(base.1, dy), 1i32, 18i32) } else { oy0 };
        if !occupied(ox, oy, snake, obstacles) && (ox, oy) != food {
            let (m, s5) = rand_range_spec(s4, 0i32, 100i32);
            if m < 50 {
                let (d, s6) = rand_range_spec(s5, 0i32, 2i32);
                (Some(((ox, oy), if d == 0 { (1i32, 0i32) } else { (0i32, 1i32) })), s6)
            } else {
                (Some(((ox, oy), (0i32, 0i32))), s5)
            }
        } else {
            obstacle_tries(s4, snake, obstacles, food, cluster, base, (tries - 1) as nat)
        }
    }
}

/// A new obstacle: 40% of the time (once there are obstacles) next to a
/// random existing one, otherwise anywhere inside the walls.
pub open spec fn spawn_obstacle_spec(s: u32, snake: Seq<Cell>, obstacles: Seq<Obstacle>, food: Cell) -> (Option<Obstacle>, u32) {
    let (c, s1) = if obstacles.len() > 0 { rand_range_spec(s, 0i32, 100i32) } else { (100i32, s) };
    let cluster = obstacles.len() > 0 && c < 40;
    let (k, s2) = if cluster { rand_range_spec(s1, 0i32, obstacles.len() as i32) } else { (0i32, s1) };
    let base = if cluster { obstacles[k as int].0 } else { (0i32, 0i32) };
    obstacle_tries(s2, snake, obstacles, food, cluster, base, 50)
}

fn clamp_exec(v: i32, lo: i32, hi: i32) -> (r: i32)
    requires
        lo <= hi,
    ensures
        r == clamp_i(v, lo, hi),
{
    if v < lo { lo } else if v > hi { hi } else { v }
}

/// Tries to place a new obstacle away from the snake, the others and the
/// food.
pub fn spawn_obstacle(rng: &mut Rng, snake: &[Cell], obstacles: &[Obstacle], food: Cell) -> (r: Option<Obstacle>)
    requires
        obstacles@.len() <= i32::MAX,
    ensures
        (r, final(rng).state) == spawn_obstacle_spec(old(rng).state, snake@, obstacles@, food),
{
    let cluster = if obstacles.len() > 0 {
        let c = rand_range(rng, 0, 100);
        c < 40
    } else {
        false
    };
    let base: Cell = if cluster {
        let k = rand_range(rng, 0, obstacles.len() as i32);
        obstacles[k as usize].0
    } else {
        (0, 0)
    };
    let ghost s2 = rng.state;
    assert(spawn_obstacle_spec(old(rng).state, snake@, obstacles@, food) == obstacle_tries(s2, snake@, obstacles@, food, cluster, base, 50));
    let mut tries: u32 = 50;
    while tries > 0
        invariant
            tries <= 50,
            obstacle_tries(rng.state, snake@, obstacles@, food, cluster, base, tries as nat) == spawn_obstacle_spec(
                old(rng).state,
                snake@,
                obstacles@,
                food,
            ),
        decreases tries,
    {
        let ghost st = rng.state;
        let mut ox = rand_range(rng, 1, GRID_W - 1);
        let mut oy = rand_range(rng, 1, GRID_H - 1);
        if cluster {
            let dx = rand_range(rng, -2, 3);
            ox = clamp_exec(add_w(base.0, dx), 1, GRID_W - 2);
            let dy = rand_range(rng, -2, 3);
            oy = clamp_exec(add_w(base.1, dy), 1, GRID_H - 2);
        }
        if !is_occupied(ox, oy, snake, obstacles) && !(ox == food.0 && oy == food.1) {
            let m = rand_range(rng, 0, 100);
            let vel: Cell = if m < 50 {
                let d = rand_range(rng, 0, 2);
                if d == 0 { (1, 0) } else { (0, 1) }
            } else {
                (0, 0)
            };
            assert(obstacle_tries(st, snake@, obstacles@, food, cluster, base, tries as nat) == (Some(((ox, oy), vel)), rng.state));
            return Some(((ox, oy), vel));
        }
        tries = tries - 1;
    }
    None
}

/// Something the game asks of the host.
#[derive(Debug)]
pub enum SnakeEffect {
    /// Play a tone of `freq` hertz.
    Tone { freq: u32, duration_ms: i32, wave: i32 },
    /// Release particles at a point of the window: each triple of random
    /// numbers gives one particle its two speeds and its lifetime.
    Particles { x: i32, y: i32, color: Rgba, seeds: Vec<(u32, u32, u32)> },
    /// Remove all particles.
    ClearParticles,
    /// Store the high score (as decimal text) in a file.
    SaveHighscore { path: String, text: String },
}

/// An effect as a mathematical value.
pub enum EffectView {
    Tone { freq: u32, duration_ms: i32, wave: i32 },
    Particles { x: i32, y: i32, color: Rgba, seeds: Seq<(u32, u32, u32)> },
    ClearParticles,
    SaveHighscore { path: Seq<char>, text: Seq<char> },
}

pub open spec fn effect_view(e: SnakeEffect) -> EffectView {
    match e {
        SnakeEffect::Tone { freq, duration_ms, wave } => EffectView::Tone { freq, duration_ms, wave },
        SnakeEffect::Particles { x, y, color, seeds } => EffectView::Particles { x, y, color, seeds: seeds@ },
        SnakeEffect::ClearParticles => EffectView::ClearParticles,
        SnakeEffect::SaveHighscore { path, text } => EffectView::SaveHighscore { path: path@, text: text@ },
    }
}

pub open spec fn effect_views(es: Seq<SnakeEffect>) -> Seq<EffectView> {
    es.map_values(|e: SnakeEffect| effect_view(e))
}

pub open spec fn tone(freq: u32, duration_ms: i32, wave: i32) -> EffectView {
    EffectView::Tone { freq, duration_ms, wave }
}

/// The game as a mathematical value. `stamina` is in half points.
pub struct SnakeView {
    pub win: Window,
    pub state: GameState,
    pub snake: Seq<Cell>,
    pub dir: Direction,
    pub next_dir: Direction,
    pub food: Cell,
    pub food_type: FoodType,
    pub score: u32,
    pub highscore: u32,
    pub frame_count: u32,
    pub speed: u32,
    pub sprinting: bool,
    pub wrapping: bool,
    pub obstacles: Seq<Obstacle>,
    pub portals: Option<(Cell, Cell)>,
    pub glow_ticks: u32,
    pub ghost_ticks: u32,
    pub magnet_ticks: u32,
    pub level: u32,
    pub stamina: u32,
    pub difficulty: Difficulty,
    pub rng: u32,
    pub highscore_wanted: bool,
}

/// The file holding the high score of a wall mode and difficulty.
pub open spec fn highscore_path(wrapping: bool, difficulty: Difficulty) -> Seq<char> {
    let d = match difficulty {
        Difficulty::Easy => "easy"@,
        Difficulty::Medium => "medium"@,
        Difficulty::Hard => "hard"@,
    };
    if wrapping {
        "/snake_hs_wrap_"@ + d + ".txt"@
    } else {
        "/snake_hs_solid_"@ + d + ".txt"@
    }
}

/// The high score a file's contents hold: its trimmed text as a number,
/// 0 when the file is missing or does not hold one.
pub open spec fn highscore_of(data: Option<Seq<char>>) -> u32 {
    match data {
        Some(d) => match crate::text::parse_u32(trim(d)) {
            Some(v) => v,
            None => 0,
        },
        None => 0,
    }
}

/// The snake's speed (frames per move) at the start of a game.
pub open spec fn start_speed(d: Difficulty) -> u32 {
    match d {
        Difficulty::Easy => 8,
        Difficulty::Medium => 6,
        Difficulty::Hard => 4,
    }
}

pub open spec fn next_difficulty(d: Difficulty) -> Difficulty {
    match d {
        Difficulty::Easy => Difficulty::Medium,
        Difficulty::Medium => Difficulty::Hard,
        Difficulty::Hard => Difficulty::Easy,
    }
}

/// A new game: a snake of three cells in the middle heading right, no
/// obstacles, fresh food, and the high score of the mode reloaded.
pub open spec fn restart_spec(g: SnakeView, fx: Seq<EffectView>) -> (SnakeView, Seq<EffectView>) {
    let snake = seq![(15i32, 10i32), (14i32, 10i32), (13i32, 10i32)];
    let (food, s1) = spawn_food_spec(g.rng, snake, Seq::empty(), food_tries());
    let g1 = SnakeView {
        snake,
        dir: Direction::Right,
        next_dir: Direction::Right,
        obstacles: Seq::empty(),
        food: match food { Some(f) => f.0, None => g.food },
        food_type: match food { Some(f) => f.1, None => g.food_type },
        rng: s1,
        score: 0,
        speed: start_speed(g.difficulty),
        state: GameState::Playing,
        glow_ticks: 0,
        level: 0,
        stamina: 200,
        sprinting: false,
        highscore_wanted: true,
        ..g
    };
    (g1, fx.push(EffectView::ClearParticles).push(tone(440, 100, 0)))
}

/// A key press: the new game and whether to redraw.
pub open spec fn key_spec(g: SnakeView, key: u32) -> (SnakeView, Seq<EffectView>, bool) {
    match g.state {
        GameState::MainMenu => if key == 13 || key == 32 {
            let (g1, fx) = restart_spec(g, Seq::empty());
            (g1, fx, true)
        } else if key == 119 || key == 87 {
            (SnakeView { wrapping: !g.wrapping, highscore_wanted: true, ..g }, Seq::empty(), true)
        } else if key == 113 || key == 81 {
            (SnakeView { difficulty: next_difficulty(g.difficulty), highscore_wanted: true, ..g }, Seq::empty(), true)
        } else {
            (g, Seq::empty(), false)
        },
        GameState::GameOver => if key == 13 || key == 32 {
            (SnakeView { state: GameState::MainMenu, ..g }, Seq::empty(), true)
        } else {
            (g, Seq::empty(), false)
        },
        GameState::Playing => if (key == 1037 || key == 65 || key == 97) && g.dir != Direction::Right {
            (SnakeView { next_dir: Direction::Left, ..g }, Seq::empty(), true)
        } else if (key == 1038 || key == 87 || key == 119) && g.dir != Direction::Down {
            (SnakeView { next_dir: Direction::Up, ..g }, Seq::empty(), true)
        } else if (key == 1039 || key == 68 || key == 100) && g.dir != Direction::Left {
            (SnakeView { next_dir: Direction::Right, ..g }, Seq::empty(), true)
        } else if (key == 1040 || key == 83 || key == 115) && g.dir != Direction::Up {
            (SnakeView { next_dir: Direction::Down, ..g }, Seq::empty(), true)
        } else if key == 32 {
            (SnakeView { sprinting: !g.sprinting, ..g }, Seq::empty(), true)
        } else {
            (g, Seq::empty(), false)
        },
    }
}

/// A click: it starts a game from the menu and returns to the menu after
/// a game.
pub open spec fn click_spec(g: SnakeView) -> (SnakeView, Seq<EffectView>, bool) {
    match g.state {
        GameState::MainMenu => {
            let (g1, fx) = restart_spec(g, Seq::empty());
            (g1, fx, true)
        },
        GameState::GameOver => (SnakeView { state: GameState::MainMenu, ..g }, Seq::empty(), true),
        GameState::Playing => (g, Seq::empty(), false),
    }
}

/// The game.
pub struct SnakeGame {
    win: Window,
    state: GameState,
    snake: Vec<Cell>,
    dir: Direction,
    next_dir: Direction,
    food: Cell,
    food_type: FoodType,
    score: u32,
    highscore: u32,
    frame_count: u32,
    speed: u32,
    sprinting: bool,
    wrapping: bool,
    obstacles: Vec<Obstacle>,
    portals: Option<(Cell, Cell)>,
    glow_ticks: u32,
    ghost_ticks: u32,
    magnet_ticks: u32,
    level: u32,
    stamina: u32,
    difficulty: Difficulty,
    rng: Rng,
    highscore_wanted: bool,
}

fn push_effect(fx: &mut Vec<SnakeEffect>, e: SnakeEffect)
    ensures
        effect_views(final(fx)@) == effect_views(old(fx)@).push(effect_view(e)),
{
    let ghost o = fx@;
    fx.push(e);
    assert(effect_views(fx@) =~= effect_views(o).push(effect_view(e)));
}

fn push_tone(fx: &mut Vec<SnakeEffect>, freq: u32, duration_ms: i32, wave: i32)
    ensures
        effect_views(final(fx)@) == effect_views(old(fx)@).push(tone(freq, duration_ms, wave)),
{
    push_effect(fx, SnakeEffect::Tone { freq, duration_ms, wave });
}

impl SnakeGame {
    pub closed spec fn view(&self) -> SnakeView {
        SnakeView {
            win: self.win,
            state: self.state,
            snake: self.snake@,
            dir: self.dir,
            next_dir: self.next_dir,
            food: self.food,
            food_type: self.food_type,
            score: self.score,
            highscore: self.highscore,
            frame_count: self.frame_count,
            speed: self.speed,
            sprinting: self.sprinting,
            wrapping: self.wrapping,
            obstacles: self.obstacles@,
            portals: self.portals,
            glow_ticks: self.glow_ticks,
            ghost_ticks: self.ghost_ticks,
            magnet_ticks: self.magnet_ticks,
            level: self.level,
            stamina: self.stamina,
            difficulty: self.difficulty,
            rng: self.rng.state,
            highscore_wanted: self.highscore_wanted,
        }
    }

    /// The snake moves every `speed` frames, so `speed` is never 0, and
    /// the stamina never exceeds the full 200 half points.
    pub closed spec fn wf(&self) -> bool {
        self.speed >= 1 && self.stamina <= 200 && self.obstacles@.len() <= max_obstacles()
    }

    /// The menu of a game in window `win`, walls solid, difficulty medium,
    /// waiting for that mode's high score.
    pub fn new(win: Window) -> (g: Self)
        ensures
            g.wf(),
            g.view() == (SnakeView {
                win,
                state: GameState::MainMenu,
                snake: Seq::empty(),
                dir: Direction::Right,
                next_dir: Direction::Right,
                food: (0, 0),
                food_type: FoodType::Normal,
                score: 0,
                highscore: 0,
                frame_count: 0,
                speed: 6,
                sprinting: false,
                wrapping: false,
                obstacles: Seq::empty(),
                portals: None,
                glow_ticks: 0,
                ghost_ticks: 0,
                magnet_ticks: 0,
                level: 0,
                stamina: 200,
                difficulty: Difficulty::Medium,
                rng: 12345,
                highscore_wanted: true,
            }),
    {
        let g = Self {
            win,
            state: GameState::MainMenu,
            snake: Vec::new(),
            dir: Direction::Right,
            next_dir: Direction::Right,
            food: (0, 0),
            food_type: FoodType::Normal,
            score: 0,
            highscore: 0,
            frame_count: 0,
            speed: 6,
            sprinting: false,
            wrapping: false,
            obstacles: Vec::new(),
            portals: None,
            glow_ticks: 0,
            ghost_ticks: 0,
            magnet_ticks: 0,
            level: 0,
            stamina: 200,
            difficulty: Difficulty::Medium,
            rng: Rng { state: 12345 },
            highscore_wanted: true,
        };
        assert(g.view().snake =~= Seq::<Cell>::empty());
        assert(g.view().obstacles =~= Seq::<Obstacle>::empty());
        g
    }

    /// The file whose contents the game waits for, if it waits for one:
    /// the high score of the current mode.
    pub fn wanted_highscore(&self) -> (r: Option<String>)
        ensures
            match r {
                Some(p) => self.view().highscore_wanted && p@ == highscore_path(self.view().wrapping, self.view().difficulty),
                None => !self.view().highscore_wanted,
            },
    {
        if self.highscore_wanted {
            Some(highscore_path_exec(self.wrapping, self.difficulty))
        } else {
            None
        }
    }

    /// Takes the contents of the high score file (`None` when it could not
    /// be read).
    pub fn set_highscore(&mut self, data: Option<String>)
        ensures
            final(self).view() == (SnakeView {
                highscore: highscore_of(match data { Some(d) => Some(d@), None => None }),
                highscore_wanted: false,
                ..old(self).view()
            }),
            final(self).wf() == old(self).wf(),
    {
        self.highscore = match data {
            Some(d) => {
                let t = trim_exec(chars_of(d.as_str()).as_slice());
                match crate::text::parse_u32_exec(t.as_slice()) {
                    Some(v) => v,
                    None => 0,
                }
            },
            None => 0,
        };
        self.highscore_wanted = false;
    }

    fn restart_game(&mut self, fx: &mut Vec<SnakeEffect>)
        requires
            old(self).wf(),
        ensures
            final(self).wf(),
            (final(self).view(), effect_views(final(fx)@)) == restart_spec(old(self).view(), effect_views(old(fx)@)),
    {
        let mut snake: Vec<Cell> = Vec::new();
        snake.push((15, 10));
        snake.push((14, 10));
        snake.push((13, 10));
        assert(snake@ =~= seq![(15i32, 10i32), (14i32, 10i32), (13i32, 10i32)]);
        self.snake = snake;
        self.dir = Direction::Right;
        self.next_dir = Direction::Right;
        self.obstacles = Vec::new();
        let empty: Vec<Obstacle> = Vec::new();
        assert(empty@ =~= Seq::<Obstacle>::empty());
        assert(self.obstacles@ =~= Seq::<Obstacle>::empty());
        match spawn_food(&mut self.rng, self.snake.as_slice(), empty.as_slice()) {
            Some((f, t)) => {
                self.food = f;
                self.food_type = t;
            },
            None => {},
        }
        self.score = 0;
        self.speed = match self.difficulty {
            Difficulty::Easy => 8,
            Difficulty::Medium => 6,
            Difficulty::Hard => 4,
        };
        self.state = GameState::Playing;
        push_effect(fx, SnakeEffect::ClearParticles);
        self.glow_ticks = 0;
        self.level = 0;
        self.stamina = 200;
        self.sprinting = false;
        self.highscore_wanted = true;
        push_tone(fx, 440, 100, 0);
    }

    /// A key press; the result says whether to redraw.
    pub fn handle_key_down(&mut self, key_code: u32) -> (r: (bool, Vec<SnakeEffect>))
        requires
            old(self).wf(),
        ensures
            final(self).wf(),
            ({
                let (g, fx, redraw) = key_spec(old(self).view(), key_code);
                final(self).view() == g && effect_views(r.1@) == fx && r.0 == redraw
            }),
    {
        let mut fx: Vec<SnakeEffect> = Vec::new();
        assert(effect_views(fx@) =~= Seq::<EffectView>::empty());
        match self.state {
            GameState::MainMenu => {
                if key_code == 13 || key_code == 32 {
                    self.restart_game(&mut fx);
                    (true, fx)
                } else if key_code == 119 || key_code == 87 {
                    self.wrapping = !self.wrapping;
                    self.highscore_wanted = true;
                    (true, fx)
                } else if key_code == 113 || key_code == 81 {
                    self.difficulty = match self.difficulty {
                        Difficulty::Easy => Difficulty::Medium,
                        Difficulty::Medium => Difficulty::Hard,
                        Difficulty::Hard => Difficulty::Easy,
                    };
                    self.highscore_wanted = true;
                    (true, fx)
                } else {
                    (false, fx)
                }
            },
            GameState::GameOver => {
                if key_code == 13 || key_code == 32 {
                    self.state = GameState::MainMenu;
                    (true, fx)
                } else {
                    (false, fx)
                }
            },
            GameState::Playing => {
                if (key_code == 1037 || key_code == 65 || key_code == 97) && self.dir != Direction::Right {
                    self.next_dir = Direction::Left;
                    (true, fx)
                } else if (key_code == 1038 || key_code == 87 || key_code == 119) && self.dir != Direction::Down {
                    self.next_dir = Direction::Up;
                    (true, fx)
                } else if (key_code == 1039 || key_code == 68 || key_code == 100) && self.dir != Direction::Left {
                    self.next_dir = Direction::Right;
                    (true, fx)
                } else if (key_code == 1040 || key_code == 83 || key_code == 115) && self.dir != Direction::Up {
                    self.next_dir = Direction::Down;
                    (true, fx)
                } else if key_code == 32 {
                    self.sprinting = !self.sprinting;
                    (true, fx)
                } else {
                    (false, fx)
                }
            },
        }
    }

    /// Key releases do nothing.
    pub fn handle_key_up(&mut self, key_code: u32) -> (redraw: bool)
        ensures
            !redraw,
            final(self).view() == old(self).view(),
    {
        false
    }

    /// A click on the window; the result says whether to redraw.
    pub fn handle_mouse_down(&mut self, mx: i32, my: i32, x: i32, y: i32) -> (r: (bool, Vec<SnakeEffect>))
        requires
            old(self).wf(),
        ensures
            final(self).wf(),
            ({
                let (g, fx, redraw) = click_spec(old(self).view());
                final(self).view() == g && effect_views(r.1@) == fx && r.0 == redraw
            }),
    {
        let mut fx: Vec<SnakeEffect> = Vec::new();
        assert(effect_views(fx@) =~= Seq::<EffectView>::empty());
        match self.state {
            GameState::MainMenu => {
                self.restart_game(&mut fx);
                (true, fx)
            },
            GameState::GameOver => {
                self.state = GameState::MainMenu;
                (true, fx)
            },
            GameState::Playing => (false, fx),
        }
    }
}

/// The file holding the high score of a wall mode and difficulty.
pub fn highscore_path_exec(wrapping: bool, difficulty: Difficulty) -> (p: String)
    ensures
        p@ == highscore_path(wrapping, difficulty),
{
    let d = match difficulty {
        Difficulty::Easy => "easy",
        Difficulty::Medium => "medium",
        Difficulty::Hard => "hard",
    };
    let mut p = if wrapping { copy_str("/snake_hs_wrap_") } else { copy_str("/snake_hs_solid_") };
    p.append(d);
    p.append(".txt");
    p
}

// ---------------------------------------------------------------------
// One frame: timers, obstacles, stamina

/// Where the magnet pulls the food: one cell toward the head, diagonally
/// if that cell is free, else along one axis, else not at all.
pub open spec fn magnet_pull(g: SnakeView) -> Cell {
    let fx = g.food.0;
    let fy = g.food.1;
    let hx = g.snake[0].0;
    let hy = g.snake[0].1;
    let dx: i32 = if fx < hx { 1i32 } else if fx > hx { -1i32 } else { 0i32 };
    let dy: i32 = if fy < hy { 1i32 } else if fy > hy { -1i32 } else { 0i32 };
    let nfx = wadd(fx, dx);
    let nfy = wadd(fy, dy);
    if !occupied(nfx, nfy, g.snake, g.obstacles) {
        (nfx, nfy)
    } else if dx != 0 && !occupied(nfx, fy, g.snake, g.obstacles) {
        (nfx, fy)
    } else if dy != 0 && !occupied(fx, nfy, g.snake, g.obstacles) {
        (fx, nfy)
    } else {
        g.food
    }
}

pub open spec fn dec(t: u32) -> u32 {
    if t > 0 { (t - 1) as u32 } else { 0 }
}

/// The frame counter advances and the power-ups run down; every fifth
/// frame a magnet pulls the food (but not poison).
pub open spec fn timers(g: SnakeView) -> SnakeView {
    let f = vstd::wrapping::u32_specs::wrapping_add(g.frame_count, 1);
    let g1 = SnakeView { frame_count: f, glow_ticks: dec(g.glow_ticks), ghost_ticks: dec(g.ghost_ticks), ..g };
    if g.magnet_ticks > 0 {
        let g2 = SnakeView { magnet_ticks: (g.magnet_ticks - 1) as u32, ..g1 };
        if f % 5 == 0 && g.food_type != FoodType::Poison {
            SnakeView { food: magnet_pull(g2), ..g2 }
        } else {
            g2
        }
    } else {
        g1
    }
}

/// The magnet looks at the head this frame.
pub open spec fn magnet_reads_head(g: SnakeView) -> bool {
    g.magnet_ticks > 0 && vstd::wrapping::u32_specs::wrapping_add(g.frame_count, 1) % 5 == 0 && g.food_type != FoodType::Poison
}

/// A moving obstacle advances, or turns back at the walls and the snake.
pub open spec fn step_obstacle(o: Obstacle, snake: Seq<Cell>) -> Obstacle {
    let (pos, vel) = o;
    if vel == (0i32, 0i32) {
        o
    } else {
        let nx = wadd(pos.0, vel.0);
        let ny = wadd(pos.1, vel.1);
        if nx <= 0 || nx >= GRID_W - 1 || ny <= 0 || ny >= GRID_H - 1 || snake.contains((nx, ny)) {
            (pos, (wsub(0i32, vel.0), wsub(0i32, vel.1)))
        } else {
            ((nx, ny), vel)
        }
    }
}

/// During a game, every eighth frame the obstacles move.
pub open spec fn move_obstacles(g: SnakeView) -> SnakeView {
    if g.state == GameState::Playing && g.frame_count % 8 == 0 {
        SnakeView { obstacles: Seq::new(g.obstacles.len(), |i: int| step_obstacle(g.obstacles[i], g.snake)), ..g }
    } else {
        g
    }
}

/// During a game sprinting uses a point of stamina per frame (and stops
/// when it runs out); otherwise half a point comes back, up to full.
pub open spec fn stamina_step(g: SnakeView) -> SnakeView {
    if g.state != GameState::Playing {
        g
    } else if g.sprinting {
        if g.stamina <= 2 {
            SnakeView { stamina: 0, sprinting: false, ..g }
        } else {
            SnakeView { stamina: (g.stamina - 2) as u32, ..g }
        }
    } else {
        SnakeView { stamina: if g.stamina + 1 > 200 { 200 } else { (g.stamina + 1) as u32 }, ..g }
    }
}

/// Frames per move: half as many (at least one) while sprinting.
pub open spec fn current_speed(g: SnakeView) -> u32 {
    if g.sprinting {
        if g.speed / 2 > 1 { g.speed / 2 } else { 1 }
    } else {
        g.speed
    }
}

/// The state in which the snake may move this frame.
pub open spec fn before_move(g: SnakeView) -> SnakeView {
    stamina_step(move_obstacles(timers(g)))
}

/// The snake moves this frame.
pub open spec fn moves(g: SnakeView) -> bool {
    let b = before_move(g);
    b.state == GameState::Playing && b.frame_count % current_speed(b) == 0
}

/// This frame would look at the head of a snake that has none left (which
/// poison can bring about); the game cannot go on from there.
pub open spec fn tick_panics(g: SnakeView) -> bool {
    g.snake.len() == 0 && (magnet_reads_head(g) || moves(g))
}

impl SnakeGame {
    fn run_timers(&mut self)
        requires
            old(self).wf(),
            !magnet_reads_head(old(self).view()) || old(self).view().snake.len() > 0,
        ensures
            final(self).wf(),
            final(self).view() == timers(old(self).view()),
    {
        self.frame_count = self.frame_count.wrapping_add(1);
        if self.glow_ticks > 0 {
            self.glow_ticks = self.glow_ticks - 1;
        }
        if self.ghost_ticks > 0 {
            self.ghost_ticks = self.ghost_ticks - 1;
        }
        if self.magnet_ticks > 0 {
            self.magnet_ticks = self.magnet_ticks - 1;
            if self.frame_count % 5 == 0 && self.food_type != FoodType::Poison {
                let fx = self.food.0;
                let fy = self.food.1;
                let hx = self.snake[0].0;
                let hy = self.snake[0].1;
                let dx: i32 = if fx < hx { 1 } else if fx > hx { -1 } else { 0 };
                let dy: i32 = if fy < hy { 1 } else if fy > hy { -1 } else { 0 };
                let nfx = add_w(fx, dx);
                let nfy = add_w(fy, dy);
                if !is_occupied(nfx, nfy, self.snake.as_slice(), self.obstacles.as_slice()) {
                    self.food = (nfx, nfy);
                } else if dx != 0 && !is_occupied(nfx, fy, self.snake.as_slice(), self.obstacles.as_slice()) {
                    self.food = (nfx, fy);
                } else if dy != 0 && !is_occupied(fx, nfy, self.snake.as_slice(), self.obstacles.as_slice()) {
                    self.food = (fx, nfy);
                }
            }
        }
    }

    fn run_obstacles(&mut self)
        requires
            old(self).wf(),
        ensures
            final(self).wf(),
            final(self).view() == move_obstacles(old(self).view()),
    {
        if self.state == GameState::Playing && self.frame_count % 8 == 0 {
            let ghost g = self.view();
            let mut i: usize = 0;
            while i < self.obstacles.len()
                invariant
                    i <= self.obstacles@.len(),
                    self.obstacles@.len() == g.obstacles.len(),
                    self.view() == (SnakeView { obstacles: self.obstacles@, ..g }),
                    self.wf(),
                    forall|j: int| 0 <= j < i ==> #[trigger] self.obstacles@[j] == step_obstacle(g.obstacles[j], g.snake),
                    forall|j: int| i <= j < self.obstacles@.len() ==> #[trigger] self.obstacles@[j] == g.obstacles[j],
                decreases self.obstacles@.len() - i,
            {
                let (pos, vel) = self.obstacles[i];
                if !(vel.0 == 0 && vel.1 == 0) {
                    let nx = add_w(pos.0, vel.0);
                    let ny = add_w(pos.1, vel.1);
                    let o = if nx <= 0 || nx >= GRID_W - 1 || ny <= 0 || ny >= GRID_H - 1
                        || is_occupied_snake(nx, ny, self.snake.as_slice()) {
                        (pos, (sub_w(0, vel.0), sub_w(0, vel.1)))
                    } else {
                        ((nx, ny), vel)
                    };
                    self.obstacles.set(i, o);
                }
                i = i + 1;
            }
            assert(self.obstacles@ =~= Seq::new(g.obstacles.len(), |k: int| step_obstacle(g.obstacles[k], g.snake)));
        }
    }

    fn run_stamina(&mut self)
        requires
            old(self).wf(),
        ensures
            final(self).wf(),
            final(self).view() == stamina_step(old(self).view()),
    {
        if self.state == GameState::Playing {
            if self.sprinting {
                if self.stamina <= 2 {
                    self.stamina = 0;
                    self.sprinting = false;
                } else {
                    self.stamina = self.stamina - 2;
                }
            } else {
                self.stamina = if self.stamina + 1 > 200 { 200 } else { self.stamina + 1 };
            }
        }
    }

    /// Whether the next frame would look at the head of a snake that has
    /// none left.
    pub fn tick_would_panic(&self) -> (r: bool)
        requires
            self.wf(),
        ensures
            r == tick_panics(self.view()),
    {
        if self.snake.len() > 0 {
            return false;
        }
        let f = self.frame_count.wrapping_add(1);
        if self.magnet_ticks > 0 && f % 5 == 0 && self.food_type != FoodType::Poison {
            return true;
        }
        if self.state != GameState::Playing {
            return false;
        }
        let sprinting = if self.sprinting { self.stamina > 2 } else { false };
        let cs = if sprinting {
            if self.speed / 2 > 1 { self.speed / 2 } else { 1 }
        } else {
            self.speed
        };
        f % cs == 0
    }
}

/// Whether the snake covers `(x, y)`.
fn is_occupied_snake(x: i32, y: i32, snake: &[Cell]) -> (r: bool)
    ensures
        r == snake@.contains((x, y)),
{
    let mut i: usize = 0;
    while i < snake.len()
        invariant
            i <= snake@.len(),
            forall|j: int| 0 <= j < i ==> snake@[j] != (x, y),
        decreases snake@.len() - i,
    {
        if snake[i].0 == x && snake[i].1 == y {
            assert(snake@[i as int] == (x, y));
            return true;
        }
        i = i + 1;
    }
    proof {
        if snake@.contains((x, y)) {
            let j = choose|j: int| 0 <= j < snake@.len() && snake@[j] == (x, y);
            assert(snake@[j] != (x, y));
        }
    }
    false
}

// ---------------------------------------------------------------------
// One frame: the move

pub open spec fn advance(h: Cell, d: Direction) -> Cell {
    match d {
        Direction::Up => (h.0, wsub(h.1, 1)),
        Direction::Down => (h.0, wadd(h.1, 1)),
        Direction::Left => (wsub(h.0, 1), h.1),
        Direction::Right => (wadd(h.0, 1), h.1),
    }
}

/// The remainder of `a / b` with the sign of `a`, as `i32` `%` gives it.
pub open spec fn trem(a: i32, b: i32) -> i32 {
    if a >= 0 { (a % b) as i32 } else { (-((-(a as int)) % (b as int))) as i32 }
}

fn trem_exec(a: i32, b: i32) -> (r: i32)
    requires
        b > 0,
    ensures
        r == trem(a, b),
{
    if a >= 0 {
        a % b
    } else {
        let na: i64 = -(a as i64);
        let q: i64 = na % (b as i64);
        (-q) as i32
    }
}

/// Three random numbers for each of `n` particles.
pub open spec fn seeds_from(s: u32, n: nat) -> (Seq<(u32, u32, u32)>, u32)
    decreases n,
{
    if n == 0 {
        (Seq::empty(), s)
    } else {
        let (prev, s1) = seeds_from(s, (n - 1) as nat);
        let a = xorshift(s1);
        let b = xorshift(a);
        let c = xorshift(b);
        (prev.push((a, b, c)), c)
    }
}

/// `n` particles of `color` released at `(x, y)`.
pub open spec fn burst(g: SnakeView, fx: Seq<EffectView>, x: i32, y: i32, color: Rgba, n: nat) -> (SnakeView, Seq<EffectView>) {
    let (seeds, s1) = seeds_from(g.rng, n);
    (SnakeView { rng: s1, ..g }, fx.push(EffectView::Particles { x, y, color, seeds }))
}

pub open spec fn rgb(r: u32, g: u32, b: u32) -> Rgba {
    Rgba { r, g, b, a: 100 }
}

/// The centre of a cell, relative to the window.
pub open spec fn cell_center(c: Cell) -> (i32, i32) {
    (wadd(wadd(OFFSET_X, wmul(c.0, CELL_SIZE)), 8), wadd(wadd(OFFSET_Y, wmul(c.1, CELL_SIZE)), 8))
}

/// The obstacles blow up one by one, the last first: the generator's
/// state and the effects afterwards.
pub open spec fn explode_obstacles(s: u32, fx: Seq<EffectView>, obs: Seq<Obstacle>) -> (u32, Seq<EffectView>)
    decreases obs.len(),
{
    if obs.len() == 0 {
        (s, fx)
    } else {
        let c = cell_center(obs.last().0);
        let (seeds, s1) = seeds_from(s, 10);
        explode_obstacles(s1, fx.push(EffectView::Particles { x: c.0, y: c.1, color: rgb(50, 50, 50), seeds }), obs.drop_last())
    }
}

pub open spec fn pop1(s: Seq<Cell>) -> Seq<Cell> {
    if s.len() > 0 { s.drop_last() } else { s }
}

pub open spec fn add_score(g: SnakeView, n: u32) -> u32 {
    vstd::wrapping::u32_specs::wrapping_add(g.score, n)
}

/// Eating the food under the new head.
pub open spec fn eat(g: SnakeView, fx: Seq<EffectView>) -> (SnakeView, Seq<EffectView>) {
    let (px, py) = cell_center(g.food);
    match g.food_type {
        FoodType::Normal => {
            let (g1, f1) = burst(g, fx, px, py, rgb(90, 20, 20), 15);
            (SnakeView { score: add_score(g1, 10), ..g1 }, f1.push(tone(880, 50, 1)))
        },
        FoodType::Golden => {
            let (g1, f1) = burst(g, fx, px, py, rgb(100, 80, 20), 30);
            (SnakeView { score: add_score(g1, 50), glow_ticks: 90, ..g1 }, f1.push(tone(1200, 100, 2)))
        },
        FoodType::Poison => {
            let (g1, f1) = burst(g, fx, px, py, rgb(60, 20, 80), 20);
            (
                SnakeView { score: if g1.score >= 20 { (g1.score - 20) as u32 } else { 0 }, snake: pop1(pop1(g1.snake)), ..g1 },
                f1.push(tone(300, 200, 3)),
            )
        },
        FoodType::Dynamite => {
            let (g1, f1) = burst(g, fx, px, py, rgb(100, 40, 10), 50);
            let g2 = SnakeView { score: add_score(g1, 20), ..g1 };
            let (s3, f3) = explode_obstacles(g2.rng, f1.push(tone(200, 400, 3)), g2.obstacles);
            (SnakeView { obstacles: Seq::empty(), rng: s3, ..g2 }, f3)
        },
        FoodType::GhostFood => {
            let (g1, f1) = burst(g, fx, px, py, rgb(100, 100, 100), 30);
            (SnakeView { score: add_score(g1, 20), ghost_ticks: 150, ..g1 }, f1.push(tone(900, 200, 2)))
        },
        FoodType::Magnet => {
            let (g1, f1) = burst(g, fx, px, py, rgb(20, 40, 100), 30);
            (SnakeView { score: add_score(g1, 20), magnet_ticks: 300, ..g1 }, f1.push(tone(1100, 200, 2)))
        },
    }
}

/// Up to `tries` attempts at two distinct free cells for a pair of portals.
pub open spec fn portal_tries(s: u32, snake: Seq<Cell>, obs: Seq<Obstacle>, tries: nat) -> (Option<(Cell, Cell)>, u32)
    decreases tries,
{
    if tries == 0 {
        (None, s)
    } else {
        let (a, s1) = rand_range_spec(s, 1i32, 29i32);
        let (b, s2) = rand_range_spec(s1, 1i32, 19i32);
        let (c, s3) = rand_range_spec(s2, 1i32, 29i32);
        let (d, s4) = rand_range_spec(s3, 1i32, 19i32);
        if !occupied(a, b, snake, obs) && !occupied(c, d, snake, obs) && (a, b) != (c, d) {
            (Some(((a, b), (c, d))), s4)
        } else {
            portal_tries(s4, snake, obs, (tries - 1) as nat)
        }
    }
}

pub open spec fn portal_threshold(d: Difficulty) -> u32 {
    match d {
        Difficulty::Easy => 150,
        Difficulty::Medium => 100,
        Difficulty::Hard => 50,
    }
}

pub open spec fn obstacle_threshold(d: Difficulty) -> u32 {
    match d {
        Difficulty::Easy => 100,
        Difficulty::Medium => 50,
        Difficulty::Hard => 10,
    }
}

pub open spec fn min_u32(a: u32, b: u32) -> u32 {
    if a < b { a } else { b }
}

/// The chance in percent of a new obstacle after a meal.
pub open spec fn obstacle_chance(d: Difficulty, score: u32) -> i32 {
    match d {
        Difficulty::Easy => (10 + min_u32(score / 30, 20)) as i32,
        Difficulty::Medium => (20 + min_u32(score / 20, 30)) as i32,
        Difficulty::Hard => (40 + min_u32(score / 10, 40)) as i32,
    }
}

pub open spec fn max_u32(a: u32, b: u32) -> u32 {
    if a > b { a } else { b }
}

/// The speed after a meal.
pub open spec fn speed_for(d: Difficulty, score: u32) -> u32 {
    match d {
        Difficulty::Easy => max_u32(vstd::wrapping::u32_specs::wrapping_sub(8, score / 150), 3),
        Difficulty::Medium => max_u32(vstd::wrapping::u32_specs::wrapping_sub(6, score / 150), 2),
        Difficulty::Hard => max_u32(vstd::wrapping::u32_specs::wrapping_sub(4, score / 200), 1),
    }
}

/// The most obstacles the field keeps track of.
pub open spec fn max_obstacles() -> nat {
    1_000_000
}

/// After a meal the portals may appear or vanish.
pub open spec fn meal_portals(g1: SnakeView) -> SnakeView {
    if g1.score >= portal_threshold(g1.difficulty) {
        let (r, s1) = rand_range_spec(g1.rng, 0i32, 100i32);
        if r < 15 {
            if g1.portals is Some {
                SnakeView { portals: None, rng: s1, ..g1 }
            } else {
                let (p, s2) = portal_tries(s1, g1.snake, g1.obstacles, 100);
                SnakeView { portals: p, rng: s2, ..g1 }
            }
        } else {
            SnakeView { rng: s1, ..g1 }
        }
    } else {
        g1
    }
}

/// After a meal (but not of poison or dynamite) an obstacle may appear.
pub open spec fn meal_obstacle(g2: SnakeView, eaten: FoodType) -> SnakeView {
    if g2.score >= obstacle_threshold(g2.difficulty) && eaten != FoodType::Poison && eaten != FoodType::Dynamite {
        let (r, s1) = rand_range_spec(g2.rng, 0i32, 100i32);
        if r < obstacle_chance(g2.difficulty, g2.score) && g2.obstacles.len() < max_obstacles() {
            let (o, s2) = spawn_obstacle_spec(s1, g2.snake, g2.obstacles, g2.food);
            SnakeView { obstacles: match o { Some(ob) => g2.obstacles.push(ob), None => g2.obstacles }, rng: s2, ..g2 }
        } else {
            SnakeView { rng: s1, ..g2 }
        }
    } else {
        g2
    }
}

/// After a meal the speed follows the score and new food appears.
pub open spec fn meal_finish(g3: SnakeView) -> SnakeView {
    let g4 = SnakeView { speed: speed_for(g3.difficulty, g3.score), ..g3 };
    let (f, s5) = spawn_food_spec(g4.rng, g4.snake, g4.obstacles, food_tries());
    SnakeView {
        food: match f { Some(ff) => ff.0, None => g4.food },
        food_type: match f { Some(ff) => ff.1, None => g4.food_type },
        rng: s5,
        ..g4
    }
}

/// After a meal: the level, maybe portals, maybe an obstacle, the speed,
/// and new food.
pub open spec fn after_meal(g: SnakeView, fx: Seq<EffectView>, eaten: FoodType) -> (SnakeView, Seq<EffectView>) {
    let nl = g.score / 100;
    let fx1 = if nl > g.level { fx.push(tone(600, 150, 0)) } else { fx };
    let g1 = SnakeView { level: nl, ..g };
    (meal_finish(meal_obstacle(meal_portals(g1), eaten)), fx1)
}

/// The game ends; a better score becomes the high score and is saved.
pub open spec fn game_over(g: SnakeView, fx: Seq<EffectView>) -> (SnakeView, Seq<EffectView>) {
    let g1 = SnakeView { state: GameState::GameOver, sprinting: false, ..g };
    if g.score > g.highscore {
        (
            SnakeView { highscore: g.score, ..g1 },
            fx.push(EffectView::SaveHighscore { path: highscore_path(g.wrapping, g.difficulty), text: crate::text::decimal(g.score as nat) }),
        )
    } else {
        (g1, fx)
    }
}

/// The new head lands on a part of the body that does not move away.
pub open spec fn hits_body(snake: Seq<Cell>, c: Cell) -> bool {
    exists|i: int| 0 <= i < snake.len() - 1 && #[trigger] snake[i] == c
}

/// An obstacle stands on the cell.
pub open spec fn hits_obstacle(obs: Seq<Obstacle>, c: Cell) -> bool {
    exists|i: int| 0 <= i < obs.len() && #[trigger] obs[i].0 == c
}

/// The head enters `nh` (inside the field): through a portal, into an
/// obstacle or the body, onto the food, or onto an empty cell.
pub open spec fn enter(g: SnakeView, fx: Seq<EffectView>, nh: Cell) -> (SnakeView, Seq<EffectView>) {
    let (nh2, fx1) = match g.portals {
        Some((p1, p2)) => if nh == p1 {
            (p2, fx.push(tone(1500, 100, 2)))
        } else if nh == p2 {
            (p1, fx.push(tone(1500, 100, 2)))
        } else {
            (nh, fx)
        },
        None => (nh, fx),
    };
    if g.ghost_ticks == 0 && hits_obstacle(g.obstacles, nh2) {
        game_over(g, fx1.push(tone(100, 600, 3)))
    } else if hits_body(g.snake, nh2) {
        game_over(g, fx1.push(tone(150, 500, 3)))
    } else {
        let g1 = SnakeView { snake: seq![nh2] + g.snake, ..g };
        if nh2 == g.food {
            let (g2, fx2) = eat(g1, fx1);
            after_meal(g2, fx2, g.food_type)
        } else {
            (SnakeView { snake: g1.snake.drop_last(), ..g1 }, fx1)
        }
    }
}

/// One move of the snake in the direction last asked for.
pub open spec fn move_spec(g: SnakeView, fx: Seq<EffectView>) -> (SnakeView, Seq<EffectView>) {
    let g0 = SnakeView { dir: g.next_dir, ..g };
    let nh = advance(g.snake[0], g.next_dir);
    if g.wrapping {
        enter(g0, fx, (trem(wadd(nh.0, GRID_W), GRID_W), trem(wadd(nh.1, GRID_H), GRID_H)))
    } else if nh.0 < 0 || nh.0 >= GRID_W || nh.1 < 0 || nh.1 >= GRID_H {
        game_over(g0, fx.push(tone(150, 500, 3)))
    } else {
        enter(g0, fx, nh)
    }
}

impl SnakeGame {
    fn burst(&mut self, fx: &mut Vec<SnakeEffect>, x: i32, y: i32, color: Rgba, n: u32)
        ensures
            (final(self).view(), effect_views(final(fx)@)) == burst(old(self).view(), effect_views(old(fx)@), x, y, color, n as nat),
            final(self).wf() == old(self).wf(),
    {
        let mut seeds: Vec<(u32, u32, u32)> = Vec::new();
        let ghost s0 = self.rng.state;
        let mut k: u32 = 0;
        assert(seeds@ =~= seeds_from(s0, 0).0);
        while k < n
            invariant
                k <= n,
                (seeds@, self.rng.state) == seeds_from(s0, k as nat),
                self.view() == (SnakeView { rng: self.rng.state, ..old(self).view() }),
                self.wf() == old(self).wf(),
            decreases n - k,
        {
            let a = rand(&mut self.rng);
            let b = rand(&mut self.rng);
            let c = rand(&mut self.rng);
            seeds.push((a, b, c));
            k = k + 1;
        }
        push_effect(fx, SnakeEffect::Particles { x, y, color, seeds });
    }

    fn explode_obstacles(&mut self, fx: &mut Vec<SnakeEffect>)
        requires
            old(self).wf(),
        ensures
            final(self).wf(),
            ({
                let (s, f) = explode_obstacles(old(self).view().rng, effect_views(old(fx)@), old(self).view().obstacles);
                &&& final(self).view() == (SnakeView { obstacles: Seq::empty(), rng: s, ..old(self).view() })
                &&& effect_views(final(fx)@) == f
            }),
    {
        let ghost g0 = self.view();
        let ghost target = explode_obstacles(g0.rng, effect_views(fx@), g0.obstacles);
        while self.obstacles.len() > 0
            invariant
                self.wf(),
                self.view() == (SnakeView { obstacles: self.obstacles@, rng: self.rng.state, ..g0 }),
                explode_obstacles(self.rng.state, effect_views(fx@), self.obstacles@) == target,
            decreases self.obstacles@.len(),
        {
            let ghost obs = self.obstacles@;
            let o = self.obstacles.pop().unwrap();
            assert(self.obstacles@ =~= obs.drop_last());
            let cx = add_w(add_w(OFFSET_X, mul_w(o.0.0, CELL_SIZE)), 8);
            let cy = add_w(add_w(OFFSET_Y, mul_w(o.0.1, CELL_SIZE)), 8);
            self.burst(fx, cx, cy, Rgba { r: 50, g: 50, b: 50, a: 100 }, 10);
        }
        assert(self.obstacles@ =~= Seq::<Obstacle>::empty());
    }
}

impl SnakeGame {
    fn eat(&mut self, fx: &mut Vec<SnakeEffect>)
        requires
            old(self).wf(),
        ensures
            final(self).wf(),
            (final(self).view(), effect_views(final(fx)@)) == eat(old(self).view(), effect_views(old(fx)@)),
    {
        let px = add_w(add_w(OFFSET_X, mul_w(self.food.0, CELL_SIZE)), 8);
        let py = add_w(add_w(OFFSET_Y, mul_w(self.food.1, CELL_SIZE)), 8);
        match self.food_type {
            FoodType::Normal => {
                self.burst(fx, px, py, Rgba { r: 90, g: 20, b: 20, a: 100 }, 15);
                self.score = self.score.wrapping_add(10);
                push_tone(fx, 880, 50, 1);
            },
            FoodType::Golden => {
                self.burst(fx, px, py, Rgba { r: 100, g: 80, b: 20, a: 100 }, 30);
                self.score = self.score.wrapping_add(50);
                self.glow_ticks = 90;
                push_tone(fx, 1200, 100, 2);
            },
            FoodType::Poison => {
                self.burst(fx, px, py, Rgba { r: 60, g: 20, b: 80, a: 100 }, 20);
                self.score = self.score.saturating_sub(20);
                push_tone(fx, 300, 200, 3);
                let ghost s0 = self.snake@;
                self.snake.pop();
                assert(self.snake@ =~= pop1(s0));
                let ghost s1 = self.snake@;
                self.snake.pop();
                assert(self.snake@ =~= pop1(s1));
            },
            FoodType::Dynamite => {
                self.burst(fx, px, py, Rgba { r: 100, g: 40, b: 10, a: 100 }, 50);
                self.score = self.score.wrapping_add(20);
                push_tone(fx, 200, 400, 3);
                self.explode_obstacles(fx);
            },
            FoodType::GhostFood => {
                self.burst(fx, px, py, Rgba { r: 100, g: 100, b: 100, a: 100 }, 30);
                self.score = self.score.wrapping_add(20);
                self.ghost_ticks = 150;
                push_tone(fx, 900, 200, 2);
            },
            FoodType::Magnet => {
                self.burst(fx, px, py, Rgba { r: 20, g: 40, b: 100, a: 100 }, 30);
                self.score = self.score.wrapping_add(20);
                self.magnet_ticks = 300;
                push_tone(fx, 1100, 200, 2);
            },
        }
    }

    fn place_portals(&mut self)
        ensures
            ({
                let (p, s) = portal_tries(old(self).view().rng, old(self).view().snake, old(self).view().obstacles, 100);
                final(self).view() == (SnakeView { portals: p, rng: s, ..old(self).view() })
            }),
            final(self).wf() == old(self).wf(),
    {
        let ghost g0 = self.view();
        let mut attempts: u32 = 0;
        self.portals = None;
        while attempts < 100
            invariant
                attempts <= 100,
                self.portals is None,
                self.wf() == old(self).wf(),
                g0 == old(self).view(),
                self.view() == (SnakeView { portals: None, rng: self.rng.state, ..g0 }),
                portal_tries(self.rng.state, g0.snake, g0.obstacles, (100 - attempts) as nat)
                    == portal_tries(g0.rng, g0.snake, g0.obstacles, 100),
            decreases 100 - attempts,
        {
            let ghost st = self.rng.state;
            let a = rand_range(&mut self.rng, 1, GRID_W - 1);
            let b = rand_range(&mut self.rng, 1, GRID_H - 1);
            let c = rand_range(&mut self.rng, 1, GRID_W - 1);
            let d = rand_range(&mut self.rng, 1, GRID_H - 1);
            if !is_occupied(a, b, self.snake.as_slice(), self.obstacles.as_slice())
                && !is_occupied(c, d, self.snake.as_slice(), self.obstacles.as_slice()) && !(a == c && b == d) {
                self.portals = Some(((a, b), (c, d)));
                assert(portal_tries(st, g0.snake, g0.obstacles, (100 - attempts) as nat) == (Some(((a, b), (c, d))), self.rng.state));
                return;
            }
            attempts = attempts + 1;
        }
    }

    fn after_meal(&mut self, fx: &mut Vec<SnakeEffect>, eaten: FoodType)
        requires
            old(self).wf(),
        ensures
            final(self).wf(),
            (final(self).view(), effect_views(final(fx)@)) == after_meal(old(self).view(), effect_views(old(fx)@), eaten),
    {
        let nl = self.score / 100;
        if nl > self.level {
            push_tone(fx, 600, 150, 0);
        }
        self.level = nl;
        self.meal_portals();
        self.meal_obstacle(eaten);
        self.meal_finish();
    }

    fn meal_portals(&mut self)
        requires
            old(self).wf(),
        ensures
            final(self).wf(),
            final(self).view() == meal_portals(old(self).view()),
    {
        let pt: u32 = match self.difficulty {
            Difficulty::Easy => 150,
            Difficulty::Medium => 100,
            Difficulty::Hard => 50,
        };
        if self.score >= pt {
            let r = rand_range(&mut self.rng, 0, 100);
            if r < 15 {
                if self.portals.is_some() {
                    self.portals = None;
                } else {
                    self.place_portals();
                }
            }
        }
    }

    fn meal_obstacle(&mut self, eaten: FoodType)
        requires
            old(self).wf(),
        ensures
            final(self).wf(),
            final(self).view() == meal_obstacle(old(self).view(), eaten),
    {
        let ot: u32 = match self.difficulty {
            Difficulty::Easy => 100,
            Difficulty::Medium => 50,
            Difficulty::Hard => 10,
        };
        if self.score >= ot && eaten != FoodType::Poison && eaten != FoodType::Dynamite {
            let prob: i32 = match self.difficulty {
                Difficulty::Easy => (10 + if self.score / 30 < 20 { self.score / 30 } else { 20 }) as i32,
                Difficulty::Medium => (20 + if self.score / 20 < 30 { self.score / 20 } else { 30 }) as i32,
                Difficulty::Hard => (40 + if self.score / 10 < 40 { self.score / 10 } else { 40 }) as i32,
            };
            let r = rand_range(&mut self.rng, 0, 100);
            if r < prob && self.obstacles.len() < 1_000_000 {
                match spawn_obstacle(&mut self.rng, self.snake.as_slice(), self.obstacles.as_slice(), self.food) {
                    Some(o) => {
                        self.obstacles.push(o);
                    },
                    None => {},
                }
            }
        }
    }

    fn meal_finish(&mut self)
        requires
            old(self).wf(),
        ensures
            final(self).wf(),
            final(self).view() == meal_finish(old(self).view()),
    {
        self.speed = match self.difficulty {
            Difficulty::Easy => {
                let v = 8u32.wrapping_sub(self.score / 150);
                if v > 3 { v } else { 3 }
            },
            Difficulty::Medium => {
                let v = 6u32.wrapping_sub(self.score / 150);
                if v > 2 { v } else { 2 }
            },
            Difficulty::Hard => {
                let v = 4u32.wrapping_sub(self.score / 200);
                if v > 1 { v } else { 1 }
            },
        };
        match spawn_food(&mut self.rng, self.snake.as_slice(), self.obstacles.as_slice()) {
            Some((f, t)) => {
                self.food = f;
                self.food_type = t;
            },
            None => {},
        }
    }

    fn game_over(&mut self, fx: &mut Vec<SnakeEffect>)
        requires
            old(self).wf(),
        ensures
            final(self).wf(),
            (final(self).view(), effect_views(final(fx)@)) == game_over(old(self).view(), effect_views(old(fx)@)),
    {
        self.state = GameState::GameOver;
        self.sprinting = false;
        if self.score > self.highscore {
            self.highscore = self.score;
            let path = highscore_path_exec(self.wrapping, self.difficulty);
            let text = crate::text::decimal_exec(self.score);
            push_effect(fx, SnakeEffect::SaveHighscore { path, text });
        }
    }
}

/// The state changes of one frame and the effects they ask for.
pub open spec fn tick_update(g: SnakeView) -> (SnakeView, Seq<EffectView>) {
    let b = before_move(g);
    if b.state == GameState::Playing && b.frame_count % current_speed(b) == 0 {
        move_spec(b, Seq::empty())
    } else {
        (b, Seq::empty())
    }
}

fn hits_obstacle_exec(obs: &Vec<Obstacle>, c: Cell) -> (r: bool)
    ensures
        r == hits_obstacle(obs@, c),
{
    let mut i: usize = 0;
    while i < obs.len()
        invariant
            i <= obs@.len(),
            forall|j: int| 0 <= j < i ==> obs@[j].0 != c,
        decreases obs@.len() - i,
    {
        if obs[i].0.0 == c.0 && obs[i].0.1 == c.1 {
            assert(obs@[i as int].0 == c);
            return true;
        }
        i = i + 1;
    }
    false
}

fn hits_body_exec(snake: &Vec<Cell>, c: Cell) -> (r: bool)
    requires
        snake@.len() > 0,
    ensures
        r == hits_body(snake@, c),
{
    let mut i: usize = 0;
    while i < snake.len() - 1
        invariant
            snake@.len() > 0,
            i <= snake@.len() - 1,
            forall|j: int| 0 <= j < i ==> snake@[j] != c,
        decreases snake@.len() - 1 - i,
    {
        if snake[i].0 == c.0 && snake[i].1 == c.1 {
            assert(snake@[i as int] == c);
            return true;
        }
        i = i + 1;
    }
    false
}

impl SnakeGame {
    fn enter(&mut self, fx: &mut Vec<SnakeEffect>, nh: Cell)
        requires
            old(self).wf(),
            old(self).view().snake.len() > 0,
        ensures
            final(self).wf(),
            (final(self).view(), effect_views(final(fx)@)) == enter(old(self).view(), effect_views(old(fx)@), nh),
    {
        let mut nh2 = nh;
        match self.portals {
            Some((p1, p2)) => {
                if nh.0 == p1.0 && nh.1 == p1.1 {
                    nh2 = p2;
                    push_tone(fx, 1500, 100, 2);
                } else if nh.0 == p2.0 && nh.1 == p2.1 {
                    nh2 = p1;
                    push_tone(fx, 1500, 100, 2);
                }
            },
            None => {},
        }
        if self.ghost_ticks == 0 && hits_obstacle_exec(&self.obstacles, nh2) {
            push_tone(fx, 100, 600, 3);
            self.game_over(fx);
            return;
        }
        if hits_body_exec(&self.snake, nh2) {
            push_tone(fx, 150, 500, 3);
            self.game_over(fx);
            return;
        }
        let ghost s0 = self.snake@;
        self.snake.insert(0, nh2);
        assert(self.snake@ =~= seq![nh2] + s0);
        if nh2.0 == self.food.0 && nh2.1 == self.food.1 {
            let eaten = self.food_type;
            self.eat(fx);
            self.after_meal(fx, eaten);
        } else {
            let ghost s1 = self.snake@;
            self.snake.pop();
            assert(self.snake@ =~= s1.drop_last());
        }
    }

    fn move_snake(&mut self, fx: &mut Vec<SnakeEffect>)
        requires
            old(self).wf(),
            old(self).view().snake.len() > 0,
        ensures
            final(self).wf(),
            (final(self).view(), effect_views(final(fx)@)) == move_spec(old(self).view(), effect_views(old(fx)@)),
    {
        self.dir = self.next_dir;
        let head = self.snake[0];
        let nh: Cell = match self.dir {
            Direction::Up => (head.0, sub_w(head.1, 1)),
            Direction::Down => (head.0, add_w(head.1, 1)),
            Direction::Left => (sub_w(head.0, 1), head.1),
            Direction::Right => (add_w(head.0, 1), head.1),
        };
        if self.wrapping {
            let w: Cell = (trem_exec(add_w(nh.0, GRID_W), GRID_W), trem_exec(add_w(nh.1, GRID_H), GRID_H));
            self.enter(fx, w);
        } else if nh.0 < 0 || nh.0 >= GRID_W || nh.1 < 0 || nh.1 >= GRID_H {
            push_tone(fx, 150, 500, 3);
            self.game_over(fx);
        } else {
            self.enter(fx, nh);
        }
    }

    /// Advances the game by one frame; the effects are what the frame asks
    /// of the host.
    fn update(&mut self) -> (fx: Vec<SnakeEffect>)
        requires
            old(self).wf(),
            !tick_panics(old(self).view()),
        ensures
            final(self).wf(),
            (final(self).view(), effect_views(fx@)) == tick_update(old(self).view()),
    {
        let mut fx: Vec<SnakeEffect> = Vec::new();
        assert(effect_views(fx@) =~= Seq::<EffectView>::empty());
        self.run_timers();
        self.run_obstacles();
        self.run_stamina();
        let cs = if self.sprinting {
            if self.speed / 2 > 1 { self.speed / 2 } else { 1 }
        } else {
            self.speed
        };
        if self.state == GameState::Playing && self.frame_count % cs == 0 {
            self.move_snake(&mut fx);
        }
        fx
    }
}

// ---------------------------------------------------------------------
// Drawing

pub open spec fn bg_color(level: u32) -> Rgba {
    if level % 4 == 0 {
        rgb(5, 5, 5)
    } else if level % 4 == 1 {
        rgb(0, 0, 10)
    } else if level % 4 == 2 {
        rgb(0, 10, 0)
    } else {
        rgb(5, 0, 10)
    }
}

pub open spec fn border_color(level: u32) -> Rgba {
    if level % 4 == 0 {
        rgb(40, 40, 40)
    } else if level % 4 == 1 {
        rgb(20, 40, 80)
    } else if level % 4 == 2 {
        rgb(80, 20, 20)
    } else {
        rgb(60, 20, 80)
    }
}

pub open spec fn white() -> Rgba {
    rgb(100, 100, 100)
}

pub open spec fn wrap_text(wrapping: bool) -> Seq<char> {
    if wrapping { "WALLS: WRAPPING [Press W to toggle]"@ } else { "WALLS: SOLID [Press W to toggle]"@ }
}

pub open spec fn difficulty_text(d: Difficulty) -> Seq<char> {
    match d {
        Difficulty::Easy => "DIFFICULTY: EASY [Press Q to change]"@,
        Difficulty::Medium => "DIFFICULTY: MEDIUM [Press Q to change]"@,
        Difficulty::Hard => "DIFFICULTY: HARD [Press Q to change]"@,
    }
}

/// The main menu at `(x, y)`.
pub open spec fn menu_draw(g: SnakeView, x: i32, y: i32) -> Seq<DrawView> {
    seq![
        text_v(wadd(x, 190), wadd(y, 80), "SNAKE"@, 48, rgb(20, 80, 20)),
        text_v(wadd(x, 180), wadd(y, 150), "HIGH SCORE: "@ + crate::text::decimal(g.highscore as nat), 20, white()),
        text_v(wadd(x, 120), wadd(y, 200), wrap_text(g.wrapping), 16, rgb(60, 60, 60)),
        text_v(wadd(x, 120), wadd(y, 230), difficulty_text(g.difficulty), 16, rgb(80, 60, 20)),
        text_v(wadd(x, 115), wadd(y, 280), "PRESS [ENTER] OR [SPACE] TO START"@, 18, rgb(100, 100, 0)),
        text_v(wadd(x, 130), wadd(y, 320), "Press [SPACE] in-game to toggle SPRINT"@, 14, rgb(40, 70, 100)),
    ]
}

/// The cell's top-left corner on screen.
pub open spec fn cell_px(bx: i32, by: i32, c: Cell) -> (i32, i32) {
    (wadd(bx, wmul(c.0, CELL_SIZE)), wadd(by, wmul(c.1, CELL_SIZE)))
}

pub open spec fn obstacle_draw(o: Obstacle, bx: i32, by: i32) -> Seq<DrawView> {
    let moving = o.1 != (0i32, 0i32);
    let p = cell_px(bx, by, o.0);
    seq![
        rect_v(p.0, p.1, 16, 16, if moving { rgb(60, 40, 40) } else { rgb(50, 50, 50) }),
        rect_v(wadd(p.0, 2), wadd(p.1, 2), 12, 12, if moving { rgb(40, 20, 20) } else { rgb(30, 30, 30) }),
    ]
}

pub open spec fn obstacles_draw(obs: Seq<Obstacle>, n: int, bx: i32, by: i32) -> Seq<DrawView>
    decreases n,
{
    if n <= 0 {
        Seq::empty()
    } else {
        obstacles_draw(obs, n - 1, bx, by) + obstacle_draw(obs[n - 1], bx, by)
    }
}

pub open spec fn portals_draw(p: Option<(Cell, Cell)>, frame: u32, bx: i32, by: i32) -> Seq<DrawView> {
    match p {
        Some((p1, p2)) => {
            let k = frame % 20;
            let a = cell_px(bx, by, p1);
            let b = cell_px(bx, by, p2);
            seq![
                rect_v(a.0, a.1, 16, 16, rgb((20 + 4 * k) as u32, 0, (80 - 2 * k) as u32)),
                rect_v(b.0, b.1, 16, 16, rgb((80 - 2 * k) as u32, 0, (20 + 4 * k) as u32)),
                rect_v(wadd(a.0, 4), wadd(a.1, 4), 8, 8, rgb(0, 0, 0)),
                rect_v(wadd(b.0, 4), wadd(b.1, 4), 8, 8, rgb(0, 0, 0)),
            ]
        },
        None => Seq::empty(),
    }
}

pub open spec fn food_draw(food: Cell, t: FoodType, bx: i32, by: i32) -> Seq<DrawView> {
    let f = cell_px(bx, by, food);
    let body = |c: Rgba| rect_v(wadd(f.0, 2), wadd(f.1, 2), 12, 12, c);
    match t {
        FoodType::Normal => seq![body(rgb(100, 20, 20))],
        FoodType::Golden => seq![body(rgb(100, 80, 0))],
        FoodType::Poison => seq![body(rgb(80, 20, 100))],
        FoodType::Dynamite => seq![body(rgb(100, 50, 0)), rect_v(wadd(f.0, 6), wsub(f.1, 2), 4, 4, rgb(100, 100, 50))],
        FoodType::GhostFood => seq![body(Rgba { r: 100, g: 100, b: 100, a: 80 })],
        FoodType::Magnet => seq![body(rgb(20, 40, 100))],
    }
}

pub open spec fn segment_color(g: SnakeView, is_head: bool) -> Rgba {
    if g.ghost_ticks > 0 {
        Rgba { r: 100, g: 100, b: 100, a: 50 }
    } else if g.glow_ticks > 0 {
        rgb(100, 90, 20)
    } else if is_head {
        rgb(30, 100, 30)
    } else {
        rgb(20, 80, 20)
    }
}

pub open spec fn eyes(d: Direction) -> (i32, i32, i32, i32) {
    match d {
        Direction::Right => (10, 4, 10, 10),
        Direction::Left => (4, 4, 4, 10),
        Direction::Up => (4, 4, 10, 4),
        Direction::Down => (4, 10, 10, 10),
    }
}

/// One cell of the snake: a magnet's aura, the cell, and on the head the eyes.
pub open spec fn segment_draw(g: SnakeView, i: int, bx: i32, by: i32) -> Seq<DrawView> {
    let p = cell_px(bx, by, g.snake[i]);
    let aura = if g.magnet_ticks > 0 {
        seq![rect_v(p.0, p.1, 16, 16, Rgba { r: 0, g: 20, b: if g.frame_count % 10 < 5 { 50 } else { 100 }, a: 30 })]
    } else {
        Seq::empty()
    };
    let e = eyes(g.dir);
    aura + seq![rect_v(wadd(p.0, 1), wadd(p.1, 1), 14, 14, segment_color(g, i == 0))] + if i == 0 {
        seq![rect_v(wadd(p.0, e.0), wadd(p.1, e.1), 2, 2, rgb(0, 0, 0)), rect_v(wadd(p.0, e.2), wadd(p.1, e.3), 2, 2, rgb(0, 0, 0))]
    } else {
        Seq::empty()
    }
}

pub open spec fn snake_draw(g: SnakeView, n: int, bx: i32, by: i32) -> Seq<DrawView>
    decreases n,
{
    if n <= 0 {
        Seq::empty()
    } else {
        snake_draw(g, n - 1, bx, by) + segment_draw(g, n - 1, bx, by)
    }
}

/// What is drawn below the particles during and after a game.
pub open spec fn field_draw(g: SnakeView, x: i32, y: i32) -> Seq<DrawView> {
    let bx = wadd(x, OFFSET_X);
    let by = wadd(y, OFFSET_Y);
    seq![
        text_v(wadd(x, 15), wadd(y, 12), "SCORE: "@ + crate::text::decimal(g.score as nat) + "   HI: "@ + crate::text::decimal(g.highscore as nat), 18, white()),
        text_v(wadd(x, 280), wadd(y, 14), "STAMINA:"@, 12, rgb(60, 60, 60)),
        rect_v(wadd(x, 350), wadd(y, 12), 100, 12, rgb(20, 20, 20)),
        rect_v(wadd(x, 350), wadd(y, 12), (g.stamina / 2) as i32, 12, if g.sprinting { rgb(20, 80, 100) } else { rgb(40, 80, 40) }),
        rect_v(wsub(bx, 2), wsub(by, 2), 484, 324, border_color(g.level)),
        rect_v(bx, by, 480, 320, rgb(0, 0, 0)),
    ] + obstacles_draw(g.obstacles, g.obstacles.len() as int, bx, by) + portals_draw(g.portals, g.frame_count, bx, by)
        + food_draw(g.food, g.food_type, bx, by)
}

/// What is drawn above the particles during and after a game.
pub open spec fn top_draw(g: SnakeView, x: i32, y: i32) -> Seq<DrawView> {
    let bx = wadd(x, OFFSET_X);
    let by = wadd(y, OFFSET_Y);
    snake_draw(g, g.snake.len() as int, bx, by) + if g.state == GameState::GameOver {
        seq![
            rect_v(bx, wadd(by, 120), 480, 80, Rgba { r: 0, g: 0, b: 0, a: 80 }),
            text_v(wadd(bx, 150), wadd(by, 140), "GAME OVER"@, 24, rgb(100, 20, 20)),
            text_v(wadd(bx, 70), wadd(by, 170), "Click or Press Enter to return to Menu"@, 14, rgb(80, 80, 80)),
        ]
    } else {
        Seq::empty()
    }
}

/// What one frame asks of the host: its effects, the drawing below the
/// particles, and (except in the menu, where no particles are shown) the
/// drawing above them.
pub struct SnakeFrame {
    pub effects: Vec<SnakeEffect>,
    pub under: Vec<DrawCmd>,
    pub over: Option<Vec<DrawCmd>>,
}

fn rgb_exec(r: u32, g: u32, b: u32) -> (c: Rgba)
    ensures
        c == rgb(r, g, b),
{
    Rgba { r, g, b, a: 100 }
}

impl SnakeGame {
    fn draw_menu(&self, out: &mut Vec<DrawCmd>)
        ensures
            draw_views(final(out)@) == draw_views(old(out)@) + menu_draw(self.view(), self.win.x, self.win.y),
    {
        let ghost o = draw_views(out@);
        let x = self.win.x;
        let y = self.win.y;
        push_text(out, add_w(x, 190), add_w(y, 80), copy_str("SNAKE"), 48, rgb_exec(20, 80, 20));
        let mut hi = copy_str("HIGH SCORE: ");
        hi.append(crate::text::decimal_exec(self.highscore).as_str());
        push_text(out, add_w(x, 180), add_w(y, 150), hi, 20, rgb_exec(100, 100, 100));
        let wrap = if self.wrapping {
            copy_str("WALLS: WRAPPING [Press W to toggle]")
        } else {
            copy_str("WALLS: SOLID [Press W to toggle]")
        };
        push_text(out, add_w(x, 120), add_w(y, 200), wrap, 16, rgb_exec(60, 60, 60));
        let diff = match self.difficulty {
            Difficulty::Easy => copy_str("DIFFICULTY: EASY [Press Q to change]"),
            Difficulty::Medium => copy_str("DIFFICULTY: MEDIUM [Press Q to change]"),
            Difficulty::Hard => copy_str("DIFFICULTY: HARD [Press Q to change]"),
        };
        push_text(out, add_w(x, 120), add_w(y, 230), diff, 16, rgb_exec(80, 60, 20));
        push_text(out, add_w(x, 115), add_w(y, 280), copy_str("PRESS [ENTER] OR [SPACE] TO START"), 18, rgb_exec(100, 100, 0));
        push_text(out, add_w(x, 130), add_w(y, 320), copy_str("Press [SPACE] in-game to toggle SPRINT"), 14, rgb_exec(40, 70, 100));
        assert(draw_views(out@) =~= o + menu_draw(self.view(), x, y));
    }

    fn draw_field(&self, out: &mut Vec<DrawCmd>)
        ensures
            draw_views(final(out)@) == draw_views(old(out)@) + field_draw(self.view(), self.win.x, self.win.y),
    {
        let ghost o = draw_views(out@);
        let ghost g = self.view();
        let x = self.win.x;
        let y = self.win.y;
        let bx = add_w(x, OFFSET_X);
        let by = add_w(y, OFFSET_Y);
        let mut score = copy_str("SCORE: ");
        score.append(crate::text::decimal_exec(self.score).as_str());
        score.append("   HI: ");
        score.append(crate::text::decimal_exec(self.highscore).as_str());
        push_text(out, add_w(x, 15), add_w(y, 12), score, 18, rgb_exec(100, 100, 100));
        push_text(out, add_w(x, 280), add_w(y, 14), copy_str("STAMINA:"), 12, rgb_exec(60, 60, 60));
        push_rect(out, add_w(x, 350), add_w(y, 12), 100, 12, rgb_exec(20, 20, 20));
        let bar = if self.sprinting { rgb_exec(20, 80, 100) } else { rgb_exec(40, 80, 40) };
        push_rect(out, add_w(x, 350), add_w(y, 12), (self.stamina / 2) as i32, 12, bar);
        push_rect(out, sub_w(bx, 2), sub_w(by, 2), 484, 324, self.border());
        push_rect(out, bx, by, 480, 320, rgb_exec(0, 0, 0));
        let ghost head = draw_views(out@);
        assert(head =~= o + seq![
            text_v(wadd(x, 15), wadd(y, 12), "SCORE: "@ + crate::text::decimal(g.score as nat) + "   HI: "@ + crate::text::decimal(g.highscore as nat), 18, white()),
            text_v(wadd(x, 280), wadd(y, 14), "STAMINA:"@, 12, rgb(60, 60, 60)),
            rect_v(wadd(x, 350), wadd(y, 12), 100, 12, rgb(20, 20, 20)),
            rect_v(wadd(x, 350), wadd(y, 12), (g.stamina / 2) as i32, 12, if g.sprinting { rgb(20, 80, 100) } else { rgb(40, 80, 40) }),
            rect_v(wsub(bx, 2), wsub(by, 2), 484, 324, border_color(g.level)),
            rect_v(bx, by, 480, 320, rgb(0, 0, 0)),
        ]);
        let mut i: usize = 0;
        while i < self.obstacles.len()
            invariant
                i <= self.obstacles@.len(),
                g == self.view(),
                draw_views(out@) == head + obstacles_draw(g.obstacles, i as int, bx, by),
            decreases self.obstacles@.len() - i,
        {
            let (pos, vel) = self.obstacles[i];
            let moving = !(vel.0 == 0 && vel.1 == 0);
            let px = add_w(bx, mul_w(pos.0, CELL_SIZE));
            let py = add_w(by, mul_w(pos.1, CELL_SIZE));
            push_rect(out, px, py, 16, 16, if moving { rgb_exec(60, 40, 40) } else { rgb_exec(50, 50, 50) });
            push_rect(out, add_w(px, 2), add_w(py, 2), 12, 12, if moving { rgb_exec(40, 20, 20) } else { rgb_exec(30, 30, 30) });
            i = i + 1;
            assert(draw_views(out@) =~= head + obstacles_draw(g.obstacles, i as int, bx, by));
        }
        let ghost mid = draw_views(out@);
        match self.portals {
            Some((p1, p2)) => {
                let k = self.frame_count % 20;
                let ax = add_w(bx, mul_w(p1.0, CELL_SIZE));
                let ay = add_w(by, mul_w(p1.1, CELL_SIZE));
                let bx2 = add_w(bx, mul_w(p2.0, CELL_SIZE));
                let by2 = add_w(by, mul_w(p2.1, CELL_SIZE));
                push_rect(out, ax, ay, 16, 16, rgb_exec(20 + 4 * k, 0, 80 - 2 * k));
                push_rect(out, bx2, by2, 16, 16, rgb_exec(80 - 2 * k, 0, 20 + 4 * k));
                push_rect(out, add_w(ax, 4), add_w(ay, 4), 8, 8, rgb_exec(0, 0, 0));
                push_rect(out, add_w(bx2, 4), add_w(by2, 4), 8, 8, rgb_exec(0, 0, 0));
            },
            None => {},
        }
        assert(draw_views(out@) =~= mid + portals_draw(g.portals, g.frame_count, bx, by));
        let ghost mid2 = draw_views(out@);
        let fx = add_w(bx, mul_w(self.food.0, CELL_SIZE));
        let fy = add_w(by, mul_w(self.food.1, CELL_SIZE));
        let c = match self.food_type {
            FoodType::Normal => rgb_exec(100, 20, 20),
            FoodType::Golden => rgb_exec(100, 80, 0),
            FoodType::Poison => rgb_exec(80, 20, 100),
            FoodType::Dynamite => rgb_exec(100, 50, 0),
            FoodType::GhostFood => Rgba { r: 100, g: 100, b: 100, a: 80 },
            FoodType::Magnet => rgb_exec(20, 40, 100),
        };
        push_rect(out, add_w(fx, 2), add_w(fy, 2), 12, 12, c);
        if self.food_type == FoodType::Dynamite {
            push_rect(out, add_w(fx, 6), sub_w(fy, 2), 4, 4, rgb_exec(100, 100, 50));
        }
        assert(draw_views(out@) =~= mid2 + food_draw(g.food, g.food_type, bx, by));
    }

    fn border(&self) -> (c: Rgba)
        ensures
            c == border_color(self.level),
    {
        let l = self.level % 4;
        if l == 0 {
            rgb_exec(40, 40, 40)
        } else if l == 1 {
            rgb_exec(20, 40, 80)
        } else if l == 2 {
            rgb_exec(80, 20, 20)
        } else {
            rgb_exec(60, 20, 80)
        }
    }

    fn draw_top(&self, out: &mut Vec<DrawCmd>)
        ensures
            draw_views(final(out)@) == draw_views(old(out)@) + top_draw(self.view(), self.win.x, self.win.y),
    {
        let ghost o = draw_views(out@);
        let ghost g = self.view();
        let x = self.win.x;
        let y = self.win.y;
        let bx = add_w(x, OFFSET_X);
        let by = add_w(y, OFFSET_Y);
        let mut i: usize = 0;
        while i < self.snake.len()
            invariant
                i <= self.snake@.len(),
                g == self.view(),
                draw_views(out@) == o + snake_draw(g, i as int, bx, by),
            decreases self.snake@.len() - i,
        {
            let ghost before = draw_views(out@);
            let (sx, sy) = self.snake[i];
            let px = add_w(bx, mul_w(sx, CELL_SIZE));
            let py = add_w(by, mul_w(sy, CELL_SIZE));
            if self.magnet_ticks > 0 {
                let b: u32 = if self.frame_count % 10 < 5 { 50 } else { 100 };
                push_rect(out, px, py, 16, 16, Rgba { r: 0, g: 20, b, a: 30 });
            }
            let color = if self.ghost_ticks > 0 {
                Rgba { r: 100, g: 100, b: 100, a: 50 }
            } else if self.glow_ticks > 0 {
                rgb_exec(100, 90, 20)
            } else if i == 0 {
                rgb_exec(30, 100, 30)
            } else {
                rgb_exec(20, 80, 20)
            };
            push_rect(out, add_w(px, 1), add_w(py, 1), 14, 14, color);
            if i == 0 {
                let (ex1, ey1, ex2, ey2): (i32, i32, i32, i32) = match self.dir {
                    Direction::Right => (10, 4, 10, 10),
                    Direction::Left => (4, 4, 4, 10),
                    Direction::Up => (4, 4, 10, 4),
                    Direction::Down => (4, 10, 10, 10),
                };
                push_rect(out, add_w(px, ex1), add_w(py, ey1), 2, 2, rgb_exec(0, 0, 0));
                push_rect(out, add_w(px, ex2), add_w(py, ey2), 2, 2, rgb_exec(0, 0, 0));
            }
            assert(draw_views(out@) =~= before + segment_draw(g, i as int, bx, by));
            i = i + 1;
        }
        let ghost mid = draw_views(out@);
        if self.state == GameState::GameOver {
            push_rect(out, bx, add_w(by, 120), 480, 80, Rgba { r: 0, g: 0, b: 0, a: 80 });
            push_text(out, add_w(bx, 150), add_w(by, 140), copy_str("GAME OVER"), 24, rgb_exec(100, 20, 20));
            push_text(out, add_w(bx, 70), add_w(by, 170), copy_str("Click or Press Enter to return to Menu"), 14, rgb_exec(80, 80, 80));
        }
        assert(draw_views(out@) =~= o + top_draw(g, x, y));
    }

    /// One frame at window position `(x, y)`: the game advances and is
    /// drawn.
    pub fn tick(&mut self, x: i32, y: i32, w: i32, h: i32) -> (f: SnakeFrame)
        requires
            old(self).wf(),
            !tick_panics(old(self).view()),
        ensures
            final(self).wf(),
            ({
                let (g, fx) = tick_update(old(self).view());
                let g1 = SnakeView { win: Window { x, y, ..g.win }, ..g };
                &&& final(self).view() == g1
                &&& effect_views(f.effects@) == fx
                &&& draw_views(f.under@) == seq![rect_v(x, y, g.win.w, g.win.h, bg_color(g.level))] + if g.state == GameState::MainMenu {
                    menu_draw(g1, x, y)
                } else {
                    field_draw(g1, x, y)
                }
                &&& match f.over {
                    Some(o) => g.state != GameState::MainMenu && draw_views(o@) == top_draw(g1, x, y),
                    None => g.state == GameState::MainMenu,
                }
            }),
    {
        let effects = self.update();
        self.win.x = x;
        self.win.y = y;
        let l = self.level % 4;
        let bg = if l == 0 {
            rgb_exec(5, 5, 5)
        } else if l == 1 {
            rgb_exec(0, 0, 10)
        } else if l == 2 {
            rgb_exec(0, 10, 0)
        } else {
            rgb_exec(5, 0, 10)
        };
        let mut under = self.win.draw_background(bg);
        if self.state == GameState::MainMenu {
            self.draw_menu(&mut under);
            return SnakeFrame { effects, under, over: None };
        }
        self.draw_field(&mut under);
        let mut over: Vec<DrawCmd> = Vec::new();
        assert(draw_views(over@) =~= Seq::<DrawView>::empty());
        self.draw_top(&mut over);
        assert(draw_views(over@) =~= top_draw(self.view(), x, y));
        SnakeFrame { effects, under, over: Some(over) }
    }
}


/// The high score that a finished game writes to its mode's file is read
/// back from that file as the same number.
pub proof fn law_highscore_round_trip(score: u32)
    ensures
        highscore_of(Some(crate::text::decimal(score as nat))) == score,
{
    crate::text::lemma_decimal_parses(score);
}

} // verus!
