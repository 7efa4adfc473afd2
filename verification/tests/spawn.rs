use pingpong_boxes::spawn::{check_spawn, pick_color};
use pingpong_boxes::{build_square, initialize, rainbow, Bounds, MovingBox, Point, Rgb, SpawnError};

fn area() -> Bounds {
    Bounds { width: 500, height: 500 }
}

#[test]
fn fresh_boxes_lie_inside_the_area() {
    let palette = rainbow();
    let boxes = initialize(50, 10, 5, area(), &palette).unwrap();
    assert_eq!(boxes.len(), 50);
    for b in &boxes {
        assert!(0 <= b.x && b.x <= 490);
        assert!(0 <= b.y && b.y <= 490);
        assert!(b.x + b.size < 500 && b.y + b.size < 500);
        assert!(-5 <= b.vx && b.vx <= 5);
        assert!(-5 <= b.vy && b.vy <= 5);
        assert_eq!(b.size, 10);
        assert!(b.is_wf());
    }
}

#[test]
fn colors_go_round_the_palette() {
    let palette = rainbow();
    let boxes = initialize(16, 10, 5, area(), &palette).unwrap();
    for (i, b) in boxes.iter().enumerate() {
        assert_eq!(b.color, palette[i % 7]);
    }
    assert_eq!(boxes[0].color, Rgb { r: 255, g: 0, b: 0 });
    assert_eq!(boxes[7].color, Rgb { r: 255, g: 0, b: 0 });
    assert_eq!(boxes[13].color, Rgb { r: 238, g: 130, b: 238 });
}

#[test]
fn two_rounds_are_alike_in_size_and_color() {
    let palette = [Rgb { r: 1, g: 1, b: 1 }, Rgb { r: 2, g: 2, b: 2 }, Rgb { r: 3, g: 3, b: 3 }];
    let first = initialize(40, 12, 9, area(), &palette).unwrap();
    let second = initialize(40, 12, 9, area(), &palette).unwrap();
    assert_eq!(first.len(), second.len());
    for i in 0..first.len() {
        assert_eq!(first[i].size, second[i].size);
        assert_eq!(first[i].color, second[i].color);
    }
}

#[test]
fn places_and_speeds_are_drawn_not_copied() {
    let palette = rainbow();
    let boxes = initialize(400, 10, 1000, Bounds { width: 100_000, height: 100_000 }, &palette).unwrap();
    let first: MovingBox = boxes[0];
    assert!(boxes.iter().any(|b| b.x != first.x));
    assert!(boxes.iter().any(|b| b.y != first.y));
    assert!(boxes.iter().any(|b| b.vx != first.vx));
    assert!(boxes.iter().any(|b| b.vy != first.vy));
    assert!(boxes.iter().any(|b| b.x != 0));
    assert!(boxes.iter().any(|b| b.vx != -1000));
    assert!(boxes.iter().any(|b| b.x != 100_000 - 10 - 1));
    assert!(boxes.iter().any(|b| b.vx != 1000));
}

#[test]
fn a_round_of_no_boxes_is_empty() {
    let palette = rainbow();
    assert_eq!(initialize(0, 10, 5, area(), &palette), Ok(Vec::new()));
}

#[test]
fn a_standing_round_has_no_speed() {
    let palette = rainbow();
    let boxes = initialize(20, 10, 0, area(), &palette).unwrap();
    assert!(boxes.iter().all(|b| b.vx == 0 && b.vy == 0));
}

#[test]
fn the_tightest_area_leaves_one_place() {
    let palette = rainbow();
    let boxes = initialize(20, 10, 3, Bounds { width: 11, height: 11 }, &palette).unwrap();
    assert!(boxes.iter().all(|b| b.x == 0 && b.y == 0));
}

#[test]
fn a_box_as_large_as_the_area_has_no_room() {
    let palette = rainbow();
    assert_eq!(initialize(5, 10, 5, Bounds { width: 10, height: 500 }, &palette), Err(SpawnError::NoRoom));
    assert_eq!(initialize(5, 10, 5, Bounds { width: 500, height: 10 }, &palette), Err(SpawnError::NoRoom));
    assert_eq!(initialize(5, 10, 5, Bounds { width: 500, height: 9 }, &palette), Err(SpawnError::NoRoom));
    assert_eq!(initialize(5, 10, 5, Bounds { width: -1, height: 9 }, &palette), Err(SpawnError::NoRoom));
    assert_eq!(initialize(0, 10, 5, Bounds { width: 10, height: 10 }, &palette), Err(SpawnError::NoRoom));
}

#[test]
fn an_empty_palette_is_refused() {
    assert_eq!(initialize(5, 10, 5, area(), &[]), Err(SpawnError::EmptyPalette));
    assert_eq!(initialize(5, -1, -5, area(), &[]), Err(SpawnError::EmptyPalette));
}

#[test]
fn a_side_must_be_positive() {
    let palette = rainbow();
    assert_eq!(initialize(5, 0, 5, area(), &palette), Err(SpawnError::SizeNotPositive));
    assert_eq!(initialize(5, -10, -5, area(), &palette), Err(SpawnError::SizeNotPositive));
}

#[test]
fn a_speed_limit_must_be_in_range() {
    let palette = rainbow();
    assert_eq!(initialize(5, 10, -1, area(), &palette), Err(SpawnError::NegativeSpeedLimit));
    assert_eq!(
        initialize(5, 10, 0x4000_0001, area(), &palette),
        Err(SpawnError::SpeedLimitTooLarge)
    );
    assert_eq!(
        initialize(5, 10, 0x4000_0001, Bounds { width: 5, height: 5 }, &palette),
        Err(SpawnError::SpeedLimitTooLarge)
    );
    let fast = initialize(30, 10, 0x4000_0000, area(), &palette).unwrap();
    assert!(fast.iter().all(|b| b.is_wf()));
}

#[test]
fn spawn_faults_come_in_order() {
    assert_eq!(check_spawn(10, 5, area(), 7), None);
    assert_eq!(check_spawn(0, -1, Bounds { width: 0, height: 0 }, 0), Some(SpawnError::EmptyPalette));
    assert_eq!(check_spawn(0, -1, Bounds { width: 0, height: 0 }, 1), Some(SpawnError::SizeNotPositive));
    assert_eq!(check_spawn(1, -1, Bounds { width: 0, height: 0 }, 1), Some(SpawnError::NegativeSpeedLimit));
    assert_eq!(check_spawn(1, i32::MAX, Bounds { width: 0, height: 0 }, 1), Some(SpawnError::SpeedLimitTooLarge));
    assert_eq!(check_spawn(1, 1, Bounds { width: 0, height: 0 }, 1), Some(SpawnError::NoRoom));
}

#[test]
fn rainbow_has_seven_colors() {
    let palette = rainbow();
    assert_eq!(
        palette,
        vec![
            Rgb { r: 255, g: 0, b: 0 },
            Rgb { r: 255, g: 127, b: 0 },
            Rgb { r: 255, g: 255, b: 0 },
            Rgb { r: 0, g: 255, b: 0 },
            Rgb { r: 0, g: 0, b: 255 },
            Rgb { r: 75, g: 0, b: 130 },
            Rgb { r: 238, g: 130, b: 238 },
        ]
    );
}

#[test]
fn pick_color_wraps_around() {
    let palette = [Rgb { r: 1, g: 0, b: 0 }, Rgb { r: 2, g: 0, b: 0 }, Rgb { r: 3, g: 0, b: 0 }];
    assert_eq!(pick_color(&palette, 0).r, 1);
    assert_eq!(pick_color(&palette, 2).r, 3);
    assert_eq!(pick_color(&palette, 3).r, 1);
    assert_eq!(pick_color(&palette, 100).r, 2);
    assert_eq!(pick_color(&palette, usize::MAX).r, palette[usize::MAX % 3].r);
}

#[test]
fn build_square_puts_the_parts_together() {
    let made = build_square(10, Point { x: 3, y: 4 }, Point { x: -1, y: 2 }, Rgb { r: 7, g: 8, b: 9 });
    assert_eq!(made, MovingBox { x: 3, y: 4, vx: -1, vy: 2, size: 10, color: Rgb { r: 7, g: 8, b: 9 } });
}
