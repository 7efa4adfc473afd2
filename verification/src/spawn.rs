//! The start of a round: boxes at random places inside the area, with random
//! velocities, coloured in turn from a palette.
//!
//! A box is placed so that it lies inside the area with room to spare: its
//! corner is drawn from `0 .. width - size` and `0 .. height - size`, the
//! upper ends left out. Where that leaves no place at all the round is
//! refused; nothing is clamped.

use vstd::prelude::*;
use crate::chance::sample_between;
use crate::model::{Bounds, MovingBox, Point, Rgb, MAX_AXIS_SPEED};
use crate::motion::all_wf;

verus! {

/// Why a round cannot be started.
#[derive(Clone, Copy, Debug, PartialEq, Eq, Structural)]
pub enum SpawnError {
    /// The palette holds no colour.
    EmptyPalette,
    /// The side of the boxes is zero or negative.
    SizeNotPositive,
    /// The speed limit is negative.
    NegativeSpeedLimit,
    /// The speed limit is above `MAX_AXIS_SPEED`.
    SpeedLimitTooLarge,
    /// A box is as wide or as high as the area, or larger.
    NoRoom,
}

/// The first reason, in the order of the variants, why these parameters
/// start no round; `None` where they do.
pub open spec fn spawn_error(size: int, speed_limit: int, bounds: Bounds, colors: int) -> Option<
    SpawnError,
> {
    if colors == 0 {
        Some(SpawnError::EmptyPalette)
    } else if size <= 0 {
        Some(SpawnError::SizeNotPositive)
    } else if speed_limit < 0 {
        Some(SpawnError::NegativeSpeedLimit)
    } else if speed_limit > MAX_AXIS_SPEED {
        Some(SpawnError::SpeedLimitTooLarge)
    } else if size >= bounds.width || size >= bounds.height {
        Some(SpawnError::NoRoom)
    } else {
        None
    }
}

/// The colour of the box with the given index: the palette is gone through
/// in order and started again at its end.
pub open spec fn color_at(palette: Seq<Rgb>, index: int) -> Rgb
    recommends
        palette.len() > 0,
        0 <= index,
{
    palette[index % (palette.len() as int)]
}

/// Whether `b` may be the box with the given index of a fresh round: it has
/// the side and the colour that the parameters fix, lies inside the area, and
/// is no faster than the limit on either axis.
pub open spec fn spawned(
    b: MovingBox,
    index: int,
    size: i32,
    speed_limit: i32,
    bounds: Bounds,
    palette: Seq<Rgb>,
) -> bool {
    &&& b.size == size
    &&& b.color == color_at(palette, index)
    &&& 0 <= b.x < bounds.width - size
    &&& 0 <= b.y < bounds.height - size
    &&& -speed_limit <= b.vx <= speed_limit
    &&& -speed_limit <= b.vy <= speed_limit
}

/// Whether `boxes` may be a fresh round of `count` boxes.
pub open spec fn is_round(
    boxes: Seq<MovingBox>,
    count: usize,
    size: i32,
    speed_limit: i32,
    bounds: Bounds,
    palette: Seq<Rgb>,
) -> bool {
    &&& boxes.len() == count
    &&& forall|i: int|
        0 <= i < boxes.len() ==> spawned(#[trigger] boxes[i], i, size, speed_limit, bounds, palette)
}

/// The seven colours of the rainbow, red first.
pub open spec fn rainbow_colors() -> Seq<Rgb> {
    seq![
        Rgb { r: 255, g: 0, b: 0 },
        Rgb { r: 255, g: 127, b: 0 },
        Rgb { r: 255, g: 255, b: 0 },
        Rgb { r: 0, g: 255, b: 0 },
        Rgb { r: 0, g: 0, b: 255 },
        Rgb { r: 75, g: 0, b: 130 },
        Rgb { r: 238, g: 130, b: 238 },
    ]
}

/// The palette used where the host brings none.
pub fn rainbow() -> (palette: Vec<Rgb>)
    ensures
        palette@ == rainbow_colors(),
{
    let palette = vec![
        Rgb { r: 255, g: 0, b: 0 },
        Rgb { r: 255, g: 127, b: 0 },
        Rgb { r: 255, g: 255, b: 0 },
        Rgb { r: 0, g: 255, b: 0 },
        Rgb { r: 0, g: 0, b: 255 },
        Rgb { r: 75, g: 0, b: 130 },
        Rgb { r: 238, g: 130, b: 238 },
    ];
    assert(palette@ =~= rainbow_colors());
    palette
}

/// Picks the colour of the box with the given index.
pub fn pick_color(palette: &[Rgb], index: usize) -> (color: Rgb)
    requires
        palette@.len() > 0,
    ensures
        color == color_at(palette@, index as int),
{
    palette[index % palette.len()]
}

/// Puts a square together from its side, its corner, its velocity and its
/// colour.
pub fn build_square(size: i32, pos: Point, speed: Point, fill_color: Rgb) -> (made: MovingBox)
    ensures
        made == (MovingBox {
            x: pos.x,
            y: pos.y,
            vx: speed.x,
            vy: speed.y,
            size,
            color: fill_color,
        }),
{
    MovingBox { x: pos.x, y: pos.y, vx: speed.x, vy: speed.y, size, color: fill_color }
}

/// Checks the parameters of a round.
pub fn check_spawn(size: i32, speed_limit: i32, bounds: Bounds, colors: usize) -> (fault: Option<
    SpawnError,
>)
    ensures
        fault == spawn_error(size as int, speed_limit as int, bounds, colors as int),
{
    if colors == 0 {
        Some(SpawnError::EmptyPalette)
    } else if size <= 0 {
        Some(SpawnError::SizeNotPositive)
    } else if speed_limit < 0 {
        Some(SpawnError::NegativeSpeedLimit)
    } else if speed_limit > MAX_AXIS_SPEED {
        Some(SpawnError::SpeedLimitTooLarge)
    } else if size >= bounds.width || size >= bounds.height {
        Some(SpawnError::NoRoom)
    } else {
        None
    }
}

/// Starts a round of `count` boxes.
///
/// The round is refused exactly where `spawn_error` names a reason, and that
/// reason is returned. Otherwise positions and velocities are drawn at
/// random, so two rounds from the same parameters differ in them; what holds
/// of every round is `is_round`.
pub fn initialize(
    count: usize,
    size: i32,
    speed_limit: i32,
    bounds: Bounds,
    palette: &[Rgb],
) -> (round: Result<Vec<MovingBox>, SpawnError>)
    ensures
        match round {
            Ok(boxes) => {
                &&& spawn_error(size as int, speed_limit as int, bounds, palette@.len() as int)
                    is None
                &&& is_round(boxes@, count, size, speed_limit, bounds, palette@)
                &&& all_wf(boxes@)
            },
            Err(e) => spawn_error(size as int, speed_limit as int, bounds, palette@.len() as int)
                == Some(e),
        },
{
    if let Some(e) = check_spawn(size, speed_limit, bounds, palette.len()) {
        return Err(e);
    }
    let mut rng = rand::thread_rng();
    let mut boxes: Vec<MovingBox> = Vec::new();
    let mut idx: usize = 0;
    while idx < count
        invariant
            idx <= count,
            spawn_error(size as int, speed_limit as int, bounds, palette@.len() as int) is None,
            is_round(boxes@, idx, size, speed_limit, bounds, palette@),
            all_wf(boxes@),
        decreases count - idx,
    {
        let xs = sample_between(&mut rng, -speed_limit, speed_limit);
        let ys = sample_between(&mut rng, -speed_limit, speed_limit);
        let x = sample_between(&mut rng, 0, bounds.width - size - 1);
        let y = sample_between(&mut rng, 0, bounds.height - size - 1);
        let fill_color = pick_color(palette, idx);
        let made = build_square(size, Point { x, y }, Point { x: xs, y: ys }, fill_color);
        proof {
            lemma_spawned_wf(made, idx as int, size, speed_limit, bounds, palette@);
        }
        boxes.push(made);
        idx += 1;
    }
    Ok(boxes)
}

/// A box of a fresh round is well formed.
pub proof fn lemma_spawned_wf(
    b: MovingBox,
    index: int,
    size: i32,
    speed_limit: i32,
    bounds: Bounds,
    palette: Seq<Rgb>,
)
    requires
        spawned(b, index, size, speed_limit, bounds, palette),
        spawn_error(size as int, speed_limit as int, bounds, palette.len() as int) is None,
    ensures
        b.wf(),
{
    let vx = b.vx as int;
    let vy = b.vy as int;
    assert(vx * vx + vy * vy <= 0x2000_0000_0000_0000) by (nonlinear_arith)
        requires
            -0x4000_0000 <= vx <= 0x4000_0000,
            -0x4000_0000 <= vy <= 0x4000_0000,
    ;
}

/// **A fresh box lies inside the area.** Its corner is not left of or above
/// the origin, and its far edges stay short of the far borders.
pub proof fn lemma_spawn_contained(
    b: MovingBox,
    index: int,
    size: i32,
    speed_limit: i32,
    bounds: Bounds,
    palette: Seq<Rgb>,
)
    requires
        spawned(b, index, size, speed_limit, bounds, palette),
    ensures
        0 <= b.x,
        0 <= b.y,
        b.x + b.size < bounds.width,
        b.y + b.size < bounds.height,
{
}

/// **Two rounds from the same parameters are alike.** They hold the same
/// number of boxes, and box for box the same side and the same colour. Of
/// positions and velocities nothing of the kind holds: they are drawn anew.
pub proof fn lemma_rounds_alike(
    first: Seq<MovingBox>,
    second: Seq<MovingBox>,
    count: usize,
    size: i32,
    speed_limit: i32,
    bounds: Bounds,
    palette: Seq<Rgb>,
)
    requires
        is_round(first, count, size, speed_limit, bounds, palette),
        is_round(second, count, size, speed_limit, bounds, palette),
    ensures
        first.len() == second.len(),
        forall|i: int|
            0 <= i < first.len() ==> (#[trigger] first[i]).size == second[i].size && first[i].color
                == second[i].color,
{
    assert forall|i: int| 0 <= i < first.len() implies (#[trigger] first[i]).size == second[i].size
        && first[i].color == second[i].color by {
        assert(spawned(first[i], i, size, speed_limit, bounds, palette));
        assert(spawned(second[i], i, size, speed_limit, bounds, palette));
    }
}

} // verus!
