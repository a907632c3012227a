use std::rc::Rc;

use walk_the_dog::Barrier;
use walk_the_dog::Cell;
use walk_the_dog::GameError;
use walk_the_dog::GameLoop;
use walk_the_dog::Image;
use walk_the_dog::KeyState;
use walk_the_dog::Obstacle;
use walk_the_dog::ObstacleKind;
use walk_the_dog::Point;
use walk_the_dog::RedHatBoy;
use walk_the_dog::Sheet;
use walk_the_dog::SheetRect;
use walk_the_dog::Walk;
use walk_the_dog::WalkTheDog;

fn simple_cell() -> Cell {
    Cell {
        frame: SheetRect { x: 0, y: 0, w: 100, h: 100 },
        sprite_source_size: SheetRect { x: 0, y: 0, w: 100, h: 100 },
    }
}

fn complete_sheet() -> Sheet {
    let mut sheet = Sheet::new();
    let groups: [(&str, u32); 5] =
        [("Idle", 10), ("Run", 8), ("Slide", 5), ("Jump", 12), ("Dead", 10)];
    for (label, count) in groups {
        for i in 1..=count {
            sheet.insert(format!("{} ({}).png", label, i), simple_cell());
        }
    }
    sheet
}

fn no_keys() -> KeyState {
    KeyState { arrow_right: false, arrow_down: false, space: false }
}

fn run_key() -> KeyState {
    KeyState { arrow_right: true, arrow_down: false, space: false }
}

fn quiet_walk() -> Walk {
    // A world with no obstacles and a high timeline, so nothing spawns or
    // collides for hundreds of ticks.
    Walk {
        boy: RedHatBoy::new(complete_sheet()),
        first_background: Image::new(Point { x: 0, y: 0 }, 600, 600),
        second_background: Image::new(Point { x: 600, y: 0 }, 600, 600),
        obstacles: Vec::new(),
        obstacle_sheet: Rc::new(Sheet::new()),
        stone_width: 90,
        stone_height: 54,
        timeline: 2000,
    }
}

#[test]
fn initialize_builds_the_starting_world() {
    let game = WalkTheDog::new();
    let loaded = game
        .initialize(complete_sheet(), Rc::new(Sheet::new()), 600, 600, 90, 54)
        .unwrap();
    match loaded {
        WalkTheDog::Loaded(walk) => {
            assert_eq!(walk.first_background.bounding_box.position.x, 0);
            assert_eq!(walk.second_background.bounding_box.position.x, 600);
            assert_eq!(walk.obstacles.len(), 2);
            assert_eq!(walk.obstacles[0].right(), 240);
            assert_eq!(walk.obstacles[1].right(), 754);
            assert_eq!(walk.timeline, 754);
            assert_eq!(walk.boy.frame_name(), "Idle (1).png");
        },
        WalkTheDog::Loading => panic!("expected a loaded game"),
    }
}

#[test]
fn initializing_twice_is_an_error() {
    let game = WalkTheDog::new();
    let loaded = game
        .initialize(complete_sheet(), Rc::new(Sheet::new()), 600, 600, 90, 54)
        .unwrap();
    let again = loaded.initialize(complete_sheet(), Rc::new(Sheet::new()), 600, 600, 90, 54);
    assert!(matches!(again, Err(GameError::AlreadyInitialized)));
}

#[test]
fn update_while_loading_does_nothing() {
    let mut game = WalkTheDog::new();
    game.update(&run_key());
    assert!(matches!(game, WalkTheDog::Loading));
}

#[test]
fn world_scrolls_obstacles_twice_per_tick() {
    let mut walk = quiet_walk();
    walk.obstacles.push(ObstacleKind::Barrier(Barrier::new(Image::new(
        Point { x: 500, y: 546 },
        90,
        54,
    ))));
    // First tick presses the run key, so the world starts scrolling at the
    // run speed; each tick applies the scroll twice.
    walk.update(&run_key());
    assert_eq!(walk.obstacles[0].right(), 590 - 6);
    walk.update(&no_keys());
    assert_eq!(walk.obstacles[0].right(), 590 - 12);
}

#[test]
fn obstacle_just_off_screen_is_retired_next_tick() {
    let mut walk = quiet_walk();
    walk.boy.run_right();
    // An obstacle whose right edge already sits at -1 must disappear in
    // the retirement step of the next tick.
    walk.obstacles.push(ObstacleKind::Barrier(Barrier::new(Image::new(
        Point { x: -91, y: 546 },
        90,
        54,
    ))));
    walk.obstacles.push(ObstacleKind::Barrier(Barrier::new(Image::new(
        Point { x: 500, y: 546 },
        90,
        54,
    ))));
    assert_eq!(walk.obstacles[0].right(), -1);
    walk.update(&no_keys());
    assert_eq!(walk.obstacles.len(), 1);
    assert_eq!(walk.obstacles[0].right(), 590 - 6);
}

#[test]
fn background_tile_wraps_to_its_siblings_right_edge() {
    let mut walk = quiet_walk();
    walk.update(&run_key());
    let width = 600;
    let mut wrapped = false;
    for _ in 0..250 {
        walk.update(&no_keys());
        let first = walk.first_background.bounding_box.position.x;
        let second = walk.second_background.bounding_box.position.x;
        if first > second {
            // The first tile crossed the left edge and was relocated:
            // exactly adjacent to its sibling, no gap and no overlap.
            assert_eq!(first, second + width);
            wrapped = true;
            break;
        }
        assert_eq!(second, first + width);
    }
    assert!(wrapped);
}

#[test]
fn timeline_spawns_a_new_segment_when_low() {
    let mut walk = quiet_walk();
    walk.timeline = 900;
    walk.boy.run_right();
    walk.update(&no_keys());
    // timeline was below the minimum: a stone and a platform were
    // appended just beyond it, and the timeline moved to their right edge.
    assert_eq!(walk.obstacles.len(), 2);
    assert_eq!(walk.obstacles[0].right(), 900 + 20 + 150 + 90);
    assert_eq!(walk.obstacles[1].right(), 900 + 20 + 370 + 384);
    assert_eq!(walk.timeline, 900 + 20 + 370 + 384);
}

#[test]
fn timeline_scrolls_with_the_world_when_high() {
    let mut walk = quiet_walk();
    walk.boy.run_right();
    walk.update(&no_keys());
    assert_eq!(walk.timeline, 1997);
    assert_eq!(walk.obstacles.len(), 0);
}

#[test]
fn barrier_in_the_path_knocks_the_runner_out() {
    let mut walk = quiet_walk();
    walk.obstacles.push(ObstacleKind::Barrier(Barrier::new(Image::new(
        Point { x: 10, y: 493 },
        50,
        50,
    ))));
    walk.update(&run_key());
    assert_eq!(walk.boy.frame_name(), "Dead (1).png");
    assert_eq!(walk.boy.state_machine.context().velocity.y, 1);
    assert_eq!(walk.boy.state_machine.context().velocity.x, 0);
}

#[test]
fn fixed_timestep_drains_whole_ticks() {
    let mut game = WalkTheDog::new();
    let mut game_loop = GameLoop::new(0);
    // 150000 time units are three ticks' worth; the loop drains the
    // accumulator while it exceeds one tick, so two ticks run and one
    // tick's worth stays behind.
    let ticks = game_loop.run_frame(&mut game, &no_keys(), 150000);
    assert_eq!(ticks, 2);
    assert_eq!(game_loop.accumulated_delta, 50000);
    assert_eq!(game_loop.last_frame, 150000);
    // A frame that arrives immediately afterwards runs nothing.
    let ticks = game_loop.run_frame(&mut game, &no_keys(), 150000);
    assert_eq!(ticks, 0);
    // A slow frame catches up with many ticks at once.
    let ticks = game_loop.run_frame(&mut game, &no_keys(), 650000);
    assert_eq!(ticks, 10);
}

#[test]
fn simulation_ticks_advance_the_loaded_world() {
    let game = WalkTheDog::new();
    let mut loaded = game
        .initialize(complete_sheet(), Rc::new(Sheet::new()), 600, 600, 90, 54)
        .unwrap();
    let mut game_loop = GameLoop::new(0);
    let ticks = game_loop.run_frame(&mut loaded, &run_key(), 350000);
    assert_eq!(ticks, 6);
    match loaded {
        WalkTheDog::Loaded(walk) => {
            // Six ticks of running: the frame counter advanced six times.
            assert_eq!(walk.boy.frame_name(), "Run (3).png");
        },
        WalkTheDog::Loading => panic!("expected a loaded game"),
    }
}

#[test]
fn spawning_keeps_the_obstacles_already_there() {
    let mut walk = quiet_walk();
    walk.timeline = 500;
    walk.boy.run_right();
    walk.obstacles.push(ObstacleKind::Barrier(Barrier::new(Image::new(
        Point { x: 400, y: 546 },
        90,
        54,
    ))));
    walk.update(&no_keys());
    assert_eq!(walk.obstacles.len(), 3);
    assert_eq!(walk.obstacles[0].right(), 490 - 6);
    assert_eq!(walk.obstacles[1].right(), 500 + 20 + 150 + 90);
    assert_eq!(walk.obstacles[2].right(), 500 + 20 + 370 + 384);
}
