//! The step of the simulation: every box moves by its velocity and turns
//! around on the axes on which it has reached a border.
//!
//! Only the velocity is reflected. The position is never pushed back inside,
//! so a fast box may be seen beyond a border for one step.

use vstd::prelude::*;
use crate::model::{lemma_wf_components, Bounds, BouncePolicy, MovingBox};

verus! {

/// The value of `i32` nearest to `v`.
pub open spec fn clamp_i32(v: int) -> int {
    if v < i32::MIN {
        i32::MIN as int
    } else if v > i32::MAX {
        i32::MAX as int
    } else {
        v
    }
}

/// Whether a box of side `size` whose corner stands at `pos` on one axis has
/// reached a border of an area that spans `0..=extent` on that axis.
///
/// Under `Edge` the corner itself is tested. Under `Center` the centre
/// `pos + size / 2` is tested; both sides are doubled so that no half is lost.
pub open spec fn crosses(policy: BouncePolicy, pos: int, size: int, extent: int) -> bool {
    match policy {
        BouncePolicy::Edge => pos <= 0 || pos >= extent,
        BouncePolicy::Center => 2 * pos + size <= 0 || 2 * pos + size >= 2 * extent,
    }
}

/// The box moved by its velocity. A coordinate that would leave `i32` stays
/// at the end of the range.
pub open spec fn stepped(b: MovingBox) -> MovingBox {
    MovingBox { x: clamp_i32(b.x + b.vx) as i32, y: clamp_i32(b.y + b.vy) as i32, ..b }
}

/// The box with its velocity negated on each axis on which it has reached a
/// border. The two axes are judged independently.
pub open spec fn reflected(b: MovingBox, bounds: Bounds, policy: BouncePolicy) -> MovingBox {
    MovingBox {
        vx: if crosses(policy, b.x as int, b.size as int, bounds.width as int) {
            (-b.vx) as i32
        } else {
            b.vx
        },
        vy: if crosses(policy, b.y as int, b.size as int, bounds.height as int) {
            (-b.vy) as i32
        } else {
            b.vy
        },
        ..b
    }
}

/// One step of one box: first the move, then the test at the new position.
pub open spec fn advanced(b: MovingBox, bounds: Bounds, policy: BouncePolicy) -> MovingBox {
    reflected(stepped(b), bounds, policy)
}

/// Whether every box of the list is well formed.
pub open spec fn all_wf(boxes: Seq<MovingBox>) -> bool {
    forall|i: int| 0 <= i < boxes.len() ==> (#[trigger] boxes[i]).wf()
}

/// Brings a wide coordinate back into `i32`.
pub fn saturate(v: i64) -> (near: i32)
    ensures
        near == clamp_i32(v as int),
{
    if v < i32::MIN as i64 {
        i32::MIN
    } else if v > i32::MAX as i64 {
        i32::MAX
    } else {
        v as i32
    }
}

/// Tells whether a box has reached a border on one axis.
pub fn reaches_border(policy: BouncePolicy, pos: i32, size: i32, extent: i32) -> (hit: bool)
    ensures
        hit == crosses(policy, pos as int, size as int, extent as int),
{
    match policy {
        BouncePolicy::Edge => pos <= 0 || pos >= extent,
        BouncePolicy::Center => {
            let twice: i64 = 2 * (pos as i64) + size as i64;
            twice <= 0 || twice >= 2 * (extent as i64)
        },
    }
}

/// Moves a box by its velocity.
pub fn step_box(b: MovingBox) -> (moved: MovingBox)
    ensures
        moved == stepped(b),
{
    MovingBox {
        x: saturate(b.x as i64 + b.vx as i64),
        y: saturate(b.y as i64 + b.vy as i64),
        vx: b.vx,
        vy: b.vy,
        size: b.size,
        color: b.color,
    }
}

/// Advances one box by one step.
pub fn advance_box(b: MovingBox, bounds: Bounds, policy: BouncePolicy) -> (next: MovingBox)
    requires
        b.wf(),
    ensures
        next == advanced(b, bounds, policy),
        next.wf(),
{
    proof {
        lemma_wf_components(b);
        lemma_advanced_wf(b, bounds, policy);
    }
    let moved = step_box(b);
    let vx: i32 = if reaches_border(policy, moved.x, moved.size, bounds.width) {
        -moved.vx
    } else {
        moved.vx
    };
    let vy: i32 = if reaches_border(policy, moved.y, moved.size, bounds.height) {
        -moved.vy
    } else {
        moved.vy
    };
    MovingBox { x: moved.x, y: moved.y, vx, vy, size: moved.size, color: moved.color }
}

/// Advances every box of the round by one step, in place.
///
/// No box looks at another: each one becomes what `advanced` says of it
/// alone.
pub fn advance(boxes: &mut Vec<MovingBox>, bounds: Bounds, policy: BouncePolicy)
    requires
        all_wf(old(boxes)@),
    ensures
        final(boxes)@.len() == old(boxes)@.len(),
        forall|i: int|
            0 <= i < old(boxes)@.len() ==> #[trigger] final(boxes)@[i] == advanced(
                old(boxes)@[i],
                bounds,
                policy,
            ),
        all_wf(final(boxes)@),
{
    let n: usize = boxes.len();
    let mut i: usize = 0;
    while i < n
        invariant
            i <= n,
            boxes@.len() == n,
            old(boxes)@.len() == n,
            forall|k: int| 0 <= k < i ==> #[trigger] boxes@[k] == advanced(
                old(boxes)@[k],
                bounds,
                policy,
            ),
            forall|k: int| i <= k < n ==> #[trigger] boxes@[k] == old(boxes)@[k],
            all_wf(boxes@),
        decreases n - i,
    {
        let next = advance_box(boxes[i], bounds, policy);
        boxes.set(i, next);
        i += 1;
    }
}

/// A step keeps a well-formed box well formed, and leaves its side and its
/// colour alone.
pub proof fn lemma_advanced_wf(b: MovingBox, bounds: Bounds, policy: BouncePolicy)
    requires
        b.wf(),
    ensures
        advanced(b, bounds, policy).wf(),
        advanced(b, bounds, policy).size == b.size,
        advanced(b, bounds, policy).color == b.color,
        advanced(b, bounds, policy).speed_sq() == b.speed_sq(),
{
    lemma_wf_components(b);
    let a = advanced(b, bounds, policy);
    let vx = b.vx as int;
    let vy = b.vy as int;
    assert((-vx) * (-vx) == vx * vx) by (nonlinear_arith);
    assert((-vy) * (-vy) == vy * vy) by (nonlinear_arith);
}

/// On each axis a step either keeps the velocity or negates it, and it
/// negates it exactly when the new position has reached a border: a box
/// never turns twice in one step, however far it has overshot.
pub proof fn lemma_one_flip_per_axis(b: MovingBox, bounds: Bounds, policy: BouncePolicy)
    requires
        b.wf(),
    ensures
        advanced(b, bounds, policy).vx == (if crosses(
            policy,
            stepped(b).x as int,
            b.size as int,
            bounds.width as int,
        ) {
            -b.vx
        } else {
            b.vx as int
        }),
        advanced(b, bounds, policy).vy == (if crosses(
            policy,
            stepped(b).y as int,
            b.size as int,
            bounds.height as int,
        ) {
            -b.vy
        } else {
            b.vy as int
        }),
{
    lemma_wf_components(b);
}

/// A box that stands at the left or the top border and moves outwards turns
/// around in the next step, when its corner is the point tested.
pub proof fn lemma_turns_at_near_border(b: MovingBox, bounds: Bounds)
    requires
        b.wf(),
    ensures
        b.x == 0 && b.vx < 0 ==> advanced(b, bounds, BouncePolicy::Edge).vx == -b.vx,
        b.y == 0 && b.vy < 0 ==> advanced(b, bounds, BouncePolicy::Edge).vy == -b.vy,
{
    lemma_wf_components(b);
}

/// A box whose step takes it to a border on both axes turns on both in
/// that one step.
pub proof fn lemma_corner_bounce(b: MovingBox, bounds: Bounds, policy: BouncePolicy)
    requires
        b.wf(),
        crosses(policy, stepped(b).x as int, b.size as int, bounds.width as int),
        crosses(policy, stepped(b).y as int, b.size as int, bounds.height as int),
    ensures
        advanced(b, bounds, policy).vx == -b.vx,
        advanced(b, bounds, policy).vy == -b.vy,
        advanced(b, bounds, policy).x == stepped(b).x,
        advanced(b, bounds, policy).y == stepped(b).y,
{
    lemma_wf_components(b);
}

} // verus!
