use pingpong_boxes::roots::floor_sqrt_u64;
use pingpong_boxes::{moves_collect, moves_follow, on_moves, DragMode, MovingBox, Point, Rgb};

const BLUE: Rgb = Rgb { r: 0, g: 0, b: 255 };

fn boxed(x: i32, y: i32, vx: i32, vy: i32) -> MovingBox {
    MovingBox { x, y, vx, vy, size: 10, color: BLUE }
}

#[test]
fn collect_puts_every_box_on_the_pointer() {
    let mut boxes = vec![boxed(0, 0, 1, 2), boxed(50, 60, -3, 4), boxed(-7, 900, 0, 0)];
    moves_collect(&mut boxes, Point { x: 33, y: 44 });
    assert_eq!(boxes, vec![boxed(33, 44, 1, 2), boxed(33, 44, -3, 4), boxed(33, 44, 0, 0)]);
}

#[test]
fn collect_keeps_size_and_color() {
    let odd = MovingBox { x: 1, y: 2, vx: 3, vy: 4, size: 25, color: Rgb { r: 9, g: 8, b: 7 } };
    let mut boxes = vec![odd];
    moves_collect(&mut boxes, Point { x: -5, y: 5 });
    assert_eq!(boxes[0].size, 25);
    assert_eq!(boxes[0].color, Rgb { r: 9, g: 8, b: 7 });
    assert_eq!((boxes[0].vx, boxes[0].vy), (3, 4));
}

#[test]
fn follow_turns_towards_the_pointer_and_keeps_the_speed() {
    let mut boxes = vec![boxed(0, 0, 3, 4)];
    moves_follow(&mut boxes, Point { x: 10, y: 0 });
    assert_eq!((boxes[0].vx, boxes[0].vy), (5, 0));
    assert_eq!((boxes[0].x, boxes[0].y), (5, 0));
}

#[test]
fn follow_works_in_every_quadrant() {
    let mut boxes = vec![boxed(0, 0, 0, 5), boxed(0, 0, 5, 0), boxed(10, 10, -5, 0)];
    moves_follow(&mut boxes, Point { x: -3, y: -4 });
    assert_eq!((boxes[0].vx, boxes[0].vy), (-3, -4));
    assert_eq!((boxes[0].x, boxes[0].y), (-3, -4));
    assert_eq!((boxes[1].vx, boxes[1].vy), (-3, -4));
    let mut up_right = vec![boxed(0, 0, 0, -10)];
    moves_follow(&mut up_right, Point { x: 40, y: -30 });
    assert_eq!((up_right[0].vx, up_right[0].vy), (8, -6));
    assert_eq!((up_right[0].x, up_right[0].y), (8, -6));
}

#[test]
fn follow_cuts_components_towards_zero() {
    let mut boxes = vec![boxed(0, 0, 10, 0)];
    moves_follow(&mut boxes, Point { x: 1, y: 1 });
    assert_eq!((boxes[0].vx, boxes[0].vy), (7, 7));
    assert_eq!((boxes[0].x, boxes[0].y), (7, 7));
    let mut back = vec![boxed(0, 0, 10, 0)];
    moves_follow(&mut back, Point { x: -1, y: -1 });
    assert_eq!((back[0].vx, back[0].vy), (-7, -7));
}

#[test]
fn follow_speed_stays_within_one_step_per_axis() {
    let starts = [(640, 0), (-300, 400), (1, 1), (0, -77), (1000, 999)];
    let targets = [(17, 3), (-250, 999), (5, -5), (0, 1), (-1, 0), (123456, -654321)];
    for (vx, vy) in starts {
        for (px, py) in targets {
            let mut boxes = vec![boxed(3, -4, vx, vy)];
            moves_follow(&mut boxes, Point { x: px, y: py });
            let old: i64 = (vx as i64) * (vx as i64) + (vy as i64) * (vy as i64);
            let nx: i64 = boxes[0].vx as i64;
            let ny: i64 = boxes[0].vy as i64;
            assert!(nx * nx + ny * ny <= old);
            assert!(old < (nx.abs() + 1) * (nx.abs() + 1) + (ny.abs() + 1) * (ny.abs() + 1));
            let dx: i64 = (px - 3) as i64;
            let dy: i64 = (py + 4) as i64;
            assert!(nx * dx >= 0 && ny * dy >= 0);
            assert!((nx * dy - ny * dx).abs() < dx.abs() + dy.abs());
        }
    }
}

#[test]
fn follow_leaves_a_box_on_the_pointer_alone() {
    let mut boxes = vec![boxed(12, 34, 5, -6), boxed(0, 0, 5, 0)];
    moves_follow(&mut boxes, Point { x: 12, y: 34 });
    assert_eq!(boxes[0], boxed(12, 34, 5, -6));
    assert_eq!((boxes[1].vx, boxes[1].vy), (1, 4));
}

#[test]
fn follow_of_a_resting_box_rests() {
    let mut boxes = vec![boxed(5, 5, 0, 0)];
    moves_follow(&mut boxes, Point { x: 100, y: 100 });
    assert_eq!(boxes[0], boxed(5, 5, 0, 0));
}

#[test]
fn follow_handles_the_widest_offsets_and_speeds() {
    let mut boxes = vec![boxed(i32::MIN, i32::MIN, 0x4000_0000, 0x4000_0000)];
    moves_follow(&mut boxes, Point { x: i32::MAX, y: i32::MAX });
    assert_eq!((boxes[0].vx, boxes[0].vy), (0x4000_0000, 0x4000_0000));
    assert_eq!((boxes[0].x, boxes[0].y), (i32::MIN + 0x4000_0000, i32::MIN + 0x4000_0000));
    let mut along = vec![boxed(0, 0, 0x4000_0000, 0x4000_0000)];
    moves_follow(&mut along, Point { x: i32::MAX, y: 0 });
    assert_eq!((along[0].vx, along[0].vy), (1518500249, 0));
}

#[test]
fn follow_keeps_size_and_color() {
    let odd = MovingBox { x: 1, y: 2, vx: 3, vy: 4, size: 25, color: Rgb { r: 9, g: 8, b: 7 } };
    let mut boxes = vec![odd];
    moves_follow(&mut boxes, Point { x: 1, y: 200 });
    assert_eq!(boxes[0], MovingBox { x: 1, y: 7, vx: 0, vy: 5, size: 25, color: Rgb { r: 9, g: 8, b: 7 } });
}

#[test]
fn on_moves_picks_the_mode() {
    let mut held = vec![boxed(0, 0, 3, 4)];
    on_moves(&mut held, DragMode::Collect, Point { x: 10, y: 0 });
    assert_eq!(held, vec![boxed(10, 0, 3, 4)]);
    let mut led = vec![boxed(0, 0, 3, 4)];
    on_moves(&mut led, DragMode::Follow, Point { x: 10, y: 0 });
    assert_eq!(led, vec![boxed(5, 0, 5, 0)]);
}

#[test]
fn drag_mode_names() {
    assert_eq!(DragMode::Collect.label(), "Collect");
    assert_eq!(DragMode::Follow.label(), "Follow");
    assert_eq!(DragMode::default(), DragMode::Collect);
}

#[test]
fn whole_square_roots() {
    assert_eq!(floor_sqrt_u64(0), 0);
    assert_eq!(floor_sqrt_u64(1), 1);
    assert_eq!(floor_sqrt_u64(3), 1);
    assert_eq!(floor_sqrt_u64(4), 2);
    assert_eq!(floor_sqrt_u64(24), 4);
    assert_eq!(floor_sqrt_u64(25), 5);
    assert_eq!(floor_sqrt_u64(1_000_000), 1000);
    assert_eq!(floor_sqrt_u64(999_999), 999);
    assert_eq!(floor_sqrt_u64(u64::MAX), 0xffff_ffff);
    assert_eq!(floor_sqrt_u64(0xffff_fffe_0000_0001), 0xffff_ffff);
    assert_eq!(floor_sqrt_u64(0xffff_fffe_0000_0000), 0xffff_fffe);
}
