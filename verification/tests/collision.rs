use std::rc::Rc;

use walk_the_dog::Barrier;
use walk_the_dog::Cell;
use walk_the_dog::Image;
use walk_the_dog::Obstacle;
use walk_the_dog::ObstacleKind;
use walk_the_dog::Platform;
use walk_the_dog::Point;
use walk_the_dog::Rect;
use walk_the_dog::RedHatBoy;
use walk_the_dog::Sheet;
use walk_the_dog::SheetRect;
use walk_the_dog::rightmost;
use walk_the_dog::stone_and_platform;

fn simple_cell() -> Cell {
    Cell {
        frame: SheetRect { x: 0, y: 0, w: 100, h: 100 },
        sprite_source_size: SheetRect { x: 0, y: 0, w: 100, h: 100 },
    }
}

fn complete_sheet() -> Sheet {
    let mut sheet = Sheet::new();
    let groups: [(&str, u32); 5] =
        [("Idle", 10), ("Run", 8), ("Slide", 5), ("Jump", 12), ("Dead", 10)];
    for (label, count) in groups {
        for i in 1..=count {
            sheet.insert(format!("{} ({}).png", label, i), simple_cell());
        }
    }
    sheet
}

fn running_boy() -> RedHatBoy {
    let mut boy = RedHatBoy::new(complete_sheet());
    boy.run_right();
    boy
}

#[test]
fn rect_intersection_is_strict_overlap() {
    let a = Rect::new_from_x_y(0, 0, 10, 10);
    let b = Rect::new_from_x_y(5, 5, 10, 10);
    let c = Rect::new_from_x_y(10, 0, 10, 10);
    let d = Rect::new_from_x_y(0, 10, 10, 10);
    assert!(a.intersects(&b));
    assert!(b.intersects(&a));
    assert!(!a.intersects(&c));
    assert!(!a.intersects(&d));
}

#[test]
fn barrier_contact_knocks_the_boy_out() {
    // Running at the floor: bounding box x in [-2, 70], y in [493, 579].
    let mut boy = running_boy();
    assert_eq!(boy.velocity_y(), 0);
    let barrier = Barrier::new(Image::new(Point { x: 0, y: 493 }, 50, 50));
    barrier.check_intersection(&mut boy);
    assert_eq!(boy.frame_name(), "Dead (1).png");
    let m = boy.state_machine;
    assert_eq!(m.context().velocity.x, 0);
    assert_eq!(m.context().velocity.y, 1);
}

#[test]
fn barrier_without_contact_changes_nothing() {
    let mut boy = running_boy();
    let before = boy.state_machine;
    let barrier = Barrier::new(Image::new(Point { x: 400, y: 493 }, 50, 50));
    barrier.check_intersection(&mut boy);
    assert_eq!(boy.state_machine, before);
}

#[test]
fn descending_boy_lands_on_platform_top() {
    // Put a platform just below the descending boy's feet, with its
    // visual top below the boy's position so the landing branch applies.
    let mut boy = running_boy();
    boy.jump();
    // Rise and descend until the boy is moving down again.
    while boy.velocity_y() <= 0 {
        boy.update();
    }
    let template = [Rect::new_from_x_y(0, 0, 200, 50)];
    let platform = Platform::new(
        Rc::new(Sheet::new()),
        Point { x: -50, y: boy.pos_y() + 90 },
        &[],
        &template,
    );
    platform.check_intersection(&mut boy);
    assert_eq!(boy.frame_name(), "Run (1).png");
    assert_eq!(boy.pos_y(), platform.position.y - 121);
}

#[test]
fn platform_hit_from_the_side_is_fatal() {
    // A platform whose top is above the boy: contact cannot be a landing.
    let mut boy = running_boy();
    let template = [Rect::new_from_x_y(0, 0, 200, 300)];
    let platform = Platform::new(
        Rc::new(Sheet::new()),
        Point { x: -50, y: 300 },
        &[],
        &template,
    );
    platform.check_intersection(&mut boy);
    assert_eq!(boy.frame_name(), "Dead (1).png");
}

#[test]
fn platform_translates_its_collision_boxes() {
    let template = [
        Rect::new_from_x_y(0, 0, 60, 54),
        Rect::new_from_x_y(60, 0, 264, 93),
        Rect::new_from_x_y(324, 0, 60, 54),
    ];
    let platform = Platform::new(
        Rc::new(Sheet::new()),
        Point { x: 100, y: 400 },
        &[],
        &template,
    );
    let boxes = platform.bounding_boxes();
    assert_eq!(boxes.len(), 3);
    assert_eq!(boxes[0], Rect::new_from_x_y(100, 400, 60, 54));
    assert_eq!(boxes[1], Rect::new_from_x_y(160, 400, 264, 93));
    assert_eq!(boxes[2], Rect::new_from_x_y(424, 400, 60, 54));
    assert_eq!(platform.right(), 484);
}

#[test]
fn moving_an_obstacle_shifts_every_box() {
    let template = [Rect::new_from_x_y(0, 0, 60, 54), Rect::new_from_x_y(60, 0, 60, 54)];
    let mut platform = Platform::new(
        Rc::new(Sheet::new()),
        Point { x: 100, y: 400 },
        &[],
        &template,
    );
    platform.move_horizontally(-30);
    assert_eq!(platform.position.x, 70);
    assert_eq!(platform.bounding_boxes()[0], Rect::new_from_x_y(70, 400, 60, 54));
    assert_eq!(platform.bounding_boxes()[1], Rect::new_from_x_y(130, 400, 60, 54));
    assert_eq!(platform.right(), 190);

    let mut barrier = Barrier::new(Image::new(Point { x: 10, y: 546 }, 90, 54));
    assert_eq!(barrier.right(), 100);
    barrier.move_horizontally(-25);
    assert_eq!(barrier.right(), 75);
    assert_eq!(barrier.image.bounding_box, Rect::new_from_x_y(-15, 546, 90, 54));
}

#[test]
fn rightmost_takes_the_largest_right_edge() {
    let mut list: Vec<ObstacleKind> = Vec::new();
    assert_eq!(rightmost(&list), 0);
    list.push(ObstacleKind::Barrier(Barrier::new(Image::new(Point { x: 0, y: 546 }, 90, 54))));
    list.push(ObstacleKind::Barrier(Barrier::new(Image::new(Point { x: 300, y: 546 }, 90, 54))));
    list.push(ObstacleKind::Barrier(Barrier::new(Image::new(Point { x: 200, y: 546 }, 90, 54))));
    assert_eq!(rightmost(&list), 390);
}

#[test]
fn segment_holds_stone_then_platform() {
    let segment = stone_and_platform(90, 54, Rc::new(Sheet::new()), 100);
    assert_eq!(segment.len(), 2);
    assert_eq!(segment[0].right(), 100 + 150 + 90);
    assert_eq!(segment[1].right(), 100 + 370 + 384);
    assert_eq!(rightmost(&segment), 854);
}
