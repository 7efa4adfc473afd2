//! The plain data of a round: colours, boxes, the area they live in, and the
//! two switches that select how boxes bounce and how they are dragged.

use vstd::prelude::*;

verus! {

/// Largest speed along one axis that a freshly spawned box may be given.
pub const MAX_AXIS_SPEED: i32 = 0x4000_0000;

/// Square of the largest speed a box may have: that of a box which moves at
/// `MAX_AXIS_SPEED` along both axes.
pub const MAX_SPEED_SQ: u64 = 0x2000_0000_0000_0000;

/// Squared length of the vector `(vx, vy)`.
pub open spec fn speed_sq(vx: int, vy: int) -> int {
    vx * vx + vy * vy
}

/// The square of a coordinate or of a velocity component.
pub fn square(v: i32) -> (sq: u64)
    ensures
        sq == v * v,
        sq <= 0x4000_0000_0000_0000,
{
    let wide: i64 = v as i64;
    assert(0 <= wide * wide <= 0x4000_0000_0000_0000) by (nonlinear_arith)
        requires
            -0x8000_0000 <= wide <= 0x7fff_ffff,
    ;
    (wide * wide) as u64
}

/// A display colour. It is carried along and never enters the motion.
#[derive(Clone, Copy, Debug, PartialEq, Eq, Structural)]
pub struct Rgb {
    pub r: u8,
    pub g: u8,
    pub b: u8,
}

/// A point of the grid, such as the place of the pointer.
#[derive(Clone, Copy, Debug, PartialEq, Eq, Structural)]
pub struct Point {
    pub x: i32,
    pub y: i32,
}

/// Width and height of the area in which the boxes move.
#[derive(Clone, Copy, Debug, PartialEq, Eq, Structural)]
pub struct Bounds {
    pub width: i32,
    pub height: i32,
}

/// Which point of a box is held against the borders.
#[derive(Clone, Copy, Debug, PartialEq, Eq, Structural)]
pub enum BouncePolicy {
    /// The top-left corner.
    Edge,
    /// The geometric centre.
    Center,
}

/// What a drag gesture does to the boxes.
#[derive(Clone, Copy, Debug, PartialEq, Eq, Structural)]
pub enum DragMode {
    /// All boxes jump to the pointer.
    Collect,
    /// All boxes turn towards the pointer and keep their speed.
    Follow,
}

impl DragMode {
    /// The name of the mode as the user reads it.
    pub open spec fn label_text(self) -> Seq<char> {
        match self {
            DragMode::Collect => "Collect"@,
            DragMode::Follow => "Follow"@,
        }
    }

    /// The name of the mode, for a menu or a label.
    pub fn label(&self) -> (name: &'static str)
        ensures
            name@ == self.label_text(),
    {
        match self {
            DragMode::Collect => "Collect",
            DragMode::Follow => "Follow",
        }
    }
}

impl Default for DragMode {
    /// Dragging collects unless the user chooses otherwise.
    fn default() -> (mode: DragMode)
        ensures
            mode == DragMode::Collect,
    {
        DragMode::Collect
    }
}

/// One moving square: `(x, y)` is its top-left corner, `(vx, vy)` the
/// distance it travels per step.
#[derive(Clone, Copy, Debug, PartialEq, Eq, Structural)]
pub struct MovingBox {
    pub x: i32,
    pub y: i32,
    pub vx: i32,
    pub vy: i32,
    pub size: i32,
    pub color: Rgb,
}

impl MovingBox {
    /// A box is well formed when its side is positive and its speed is at
    /// most the largest one allowed. The bound on the speed keeps every
    /// velocity component away from the ends of `i32`, so that it can be
    /// negated.
    pub open spec fn wf(self) -> bool {
        &&& self.size > 0
        &&& speed_sq(self.vx as int, self.vy as int) <= MAX_SPEED_SQ
    }

    /// Squared speed of the box.
    pub open spec fn speed_sq(self) -> int {
        speed_sq(self.vx as int, self.vy as int)
    }

    /// Tells whether the box is well formed.
    pub fn is_wf(&self) -> (ok: bool)
        ensures
            ok == self.wf(),
    {
        let sq: u64 = square(self.vx) + square(self.vy);
        self.size > 0 && sq <= MAX_SPEED_SQ
    }

    /// Builds a box from its parts, if they make a well-formed one.
    pub fn new(x: i32, y: i32, vx: i32, vy: i32, size: i32, color: Rgb) -> (made: Option<
        MovingBox,
    >)
        ensures
            made == (if (MovingBox { x, y, vx, vy, size, color }).wf() {
                Some(MovingBox { x, y, vx, vy, size, color })
            } else {
                None
            }),
    {
        let b = MovingBox { x, y, vx, vy, size, color };
        if b.is_wf() {
            Some(b)
        } else {
            None
        }
    }
}

/// A well-formed box has velocity components that can be negated in `i32`.
pub proof fn lemma_wf_components(b: MovingBox)
    requires
        b.wf(),
    ensures
        -0x7fff_ffff <= b.vx <= 0x7fff_ffff,
        -0x7fff_ffff <= b.vy <= 0x7fff_ffff,
{
    let vx = b.vx as int;
    let vy = b.vy as int;
    assert(vx * vx + vy * vy <= 0x2000_0000_0000_0000 ==> -0x7fff_ffff <= vx <= 0x7fff_ffff
        && -0x7fff_ffff <= vy <= 0x7fff_ffff) by (nonlinear_arith);
}

} // verus!
