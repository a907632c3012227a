use walk_the_dog::Cell;
use walk_the_dog::Event;
use walk_the_dog::Idle;
use walk_the_dog::RedHatBoy;
use walk_the_dog::RedHatBoyState;
use walk_the_dog::RedHatBoyStateMachine;
use walk_the_dog::Sheet;
use walk_the_dog::SheetRect;
use walk_the_dog::sheet_complete;

fn simple_cell() -> Cell {
    Cell {
        frame: SheetRect { x: 0, y: 0, w: 100, h: 100 },
        sprite_source_size: SheetRect { x: 0, y: 0, w: 100, h: 100 },
    }
}

fn complete_sheet() -> Sheet {
    let mut sheet = Sheet::new();
    let groups: [(&str, u32); 5] =
        [("Idle", 10), ("Run", 8), ("Slide", 5), ("Jump", 12), ("Dead", 10)];
    for (label, count) in groups {
        for i in 1..=count {
            sheet.insert(format!("{} ({}).png", label, i), simple_cell());
        }
    }
    sheet
}

fn idle_machine() -> RedHatBoyStateMachine {
    let state: RedHatBoyState<Idle> = RedHatBoyState::new();
    RedHatBoyStateMachine::Idle(state)
}

#[test]
fn new_character_is_idle_at_starting_point() {
    let m = idle_machine();
    assert_eq!(m.frame_name(), "Idle");
    assert_eq!(m.context().frame, 0);
    assert_eq!(m.context().position.x, -20);
    assert_eq!(m.context().position.y, 479);
    assert_eq!(m.context().velocity.x, 0);
    assert_eq!(m.context().velocity.y, 0);
}

#[test]
fn illegal_events_are_noops() {
    let idle = idle_machine();
    assert_eq!(idle.transition(Event::Slide), idle);
    assert_eq!(idle.transition(Event::Jump), idle);
    assert_eq!(idle.transition(Event::KnockOut), idle);
    assert_eq!(idle.transition(Event::Land(300)), idle);

    let running = idle.transition(Event::Run);
    assert_eq!(running.transition(Event::Run), running);

    let sliding = running.transition(Event::Slide);
    assert_eq!(sliding.transition(Event::Run), sliding);
    assert_eq!(sliding.transition(Event::Jump), sliding);
    assert_eq!(sliding.transition(Event::Land(300)), sliding);
}

#[test]
fn knocked_out_is_absorbing() {
    let mut m = idle_machine().transition(Event::Run).transition(Event::KnockOut);
    assert_eq!(m.frame_name(), "Dead");
    for _ in 0..40 {
        m = m.transition(Event::Update);
    }
    assert_eq!(m.frame_name(), "Dead");
    let settled = m;
    assert_eq!(settled.transition(Event::Update), settled);
    assert_eq!(settled.transition(Event::Run), settled);
    assert_eq!(settled.transition(Event::KnockOut), settled);
}

#[test]
fn frame_resets_on_state_changing_events() {
    let mut running = idle_machine().transition(Event::Run);
    assert_eq!(running.context().frame, 0);
    running = running.transition(Event::Update);
    running = running.transition(Event::Update);
    assert_eq!(running.context().frame, 2);
    let sliding = running.transition(Event::Slide);
    assert_eq!(sliding.context().frame, 0);
    let jumping = running.transition(Event::Jump);
    assert_eq!(jumping.context().frame, 0);
    let falling = running.transition(Event::KnockOut);
    assert_eq!(falling.context().frame, 0);
}

#[test]
fn frame_counter_wraps_modulo_frame_count() {
    let mut m = idle_machine();
    for _ in 0..29 {
        m = m.transition(Event::Update);
    }
    assert_eq!(m.context().frame, 29);
    m = m.transition(Event::Update);
    assert_eq!(m.context().frame, 0);
}

#[test]
fn gravity_caps_at_terminal_velocity() {
    let mut m = idle_machine();
    for _ in 0..50 {
        m = m.transition(Event::Update);
        assert!(m.context().velocity.y <= 20);
        assert!(m.context().position.y <= 479);
    }
    assert_eq!(m.context().velocity.y, 20);
    assert_eq!(m.context().position.y, 479);
}

#[test]
fn falling_velocity_is_nondecreasing() {
    let mut m = idle_machine().transition(Event::Run).transition(Event::KnockOut);
    assert_eq!(m.context().velocity.x, 0);
    assert_eq!(m.context().velocity.y, 1);
    let mut last_vy = m.context().velocity.y;
    for _ in 0..25 {
        m = m.transition(Event::Update);
        assert!(m.context().velocity.y >= last_vy);
        assert!(m.context().velocity.y <= 20);
        assert!(m.context().position.y <= 479);
        last_vy = m.context().velocity.y;
    }
}

#[test]
fn landing_twice_is_landing_once() {
    let running = idle_machine().transition(Event::Run);
    let once = running.transition(Event::Land(300));
    let twice = once.transition(Event::Land(300));
    assert_eq!(once, twice);
    assert_eq!(once.context().position.y, 300 - 121);
}

#[test]
fn sliding_stands_up_at_end_of_animation() {
    let mut m = idle_machine().transition(Event::Run).transition(Event::Slide);
    assert_eq!(m.frame_name(), "Slide");
    let mut stood_up = false;
    for _ in 0..15 {
        m = m.transition(Event::Update);
        if m.frame_name() == "Run" {
            stood_up = true;
            break;
        }
    }
    assert!(stood_up);
    assert_eq!(m.context().frame, 0);
}

#[test]
fn jump_returns_to_running_on_the_floor() {
    let mut m = idle_machine().transition(Event::Run).transition(Event::Jump);
    assert_eq!(m.frame_name(), "Jump");
    assert_eq!(m.context().velocity.y, -25);
    let mut landed = false;
    for _ in 0..100 {
        m = m.transition(Event::Update);
        if m.frame_name() == "Run" {
            landed = true;
            break;
        }
    }
    assert!(landed);
    assert_eq!(m.context().position.y, 600 - 121);
    assert_eq!(m.context().frame, 0);
}

#[test]
fn falling_ends_knocked_out_with_frame_kept() {
    let mut m = idle_machine().transition(Event::Run).transition(Event::KnockOut);
    for _ in 0..29 {
        m = m.transition(Event::Update);
    }
    assert_eq!(m.frame_name(), "Dead");
    assert_eq!(m.context().frame, 29);
    let after = m.transition(Event::Update);
    assert_eq!(after.context().frame, 29);
    assert_eq!(after, after.transition(Event::Update));
}

#[test]
fn run_then_six_updates_shows_third_run_sprite() {
    let sheet = complete_sheet();
    assert!(sheet_complete(&sheet));
    let mut boy = RedHatBoy::new(sheet);
    boy.run_right();
    for _ in 0..6 {
        boy.update();
    }
    assert_eq!(boy.frame_name(), "Run (3).png");
}

#[test]
fn frame_names_follow_sprite_numbering() {
    let sheet = complete_sheet();
    let mut boy = RedHatBoy::new(sheet);
    assert_eq!(boy.frame_name(), "Idle (1).png");
    boy.update();
    boy.update();
    boy.update();
    assert_eq!(boy.frame_name(), "Idle (2).png");
}

#[test]
fn knock_out_is_legal_from_sliding_and_jumping() {
    let running = idle_machine().transition(Event::Run);
    let from_sliding = running.transition(Event::Slide).transition(Event::KnockOut);
    assert_eq!(from_sliding.frame_name(), "Dead");
    assert_eq!(from_sliding.context().velocity.x, 0);
    assert_eq!(from_sliding.context().velocity.y, 1);
    let from_jumping = running.transition(Event::Jump).transition(Event::KnockOut);
    assert_eq!(from_jumping.frame_name(), "Dead");
    assert_eq!(from_jumping.context().frame, 0);
}

#[test]
fn landing_from_a_jump_resets_the_frame() {
    let mut jumping = idle_machine().transition(Event::Run).transition(Event::Jump);
    jumping = jumping.transition(Event::Update);
    jumping = jumping.transition(Event::Update);
    assert_eq!(jumping.context().frame, 2);
    let landed = jumping.transition(Event::Land(500));
    assert_eq!(landed.frame_name(), "Run");
    assert_eq!(landed.context().frame, 0);
    assert_eq!(landed.context().position.y, 500 - 121);
}
