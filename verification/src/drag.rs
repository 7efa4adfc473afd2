//! What a drag gesture does to the boxes.
//!
//! Under `Collect` every box jumps to the pointer and keeps its velocity, so
//! that it resumes its course from there when the gesture ends. Under
//! `Follow` every box turns towards the pointer, keeps its speed, and moves
//! one step in the new direction.
//!
//! A box whose corner already stands on the pointer has no direction to turn
//! to. `Follow` leaves such a box as it is.
//!
//! On a grid a turned velocity cannot always keep its length to the last
//! digit. `Follow` cuts each component towards zero, so a turn never makes a
//! box faster and makes it slower by less than one step on each axis. A host
//! that wants the loss to go unseen chooses a fine grid.

use vstd::prelude::*;
use crate::model::{lemma_wf_components, speed_sq, square, DragMode, MovingBox, Point, MAX_SPEED_SQ};
use crate::motion::{all_wf, step_box, stepped};
use crate::roots::{floor_sqrt, floor_sqrt_u64, is_floor_sqrt, lemma_floor_sqrt_exists};

verus! {

/// The box moved to the pointer, everything else kept.
pub open spec fn collected(b: MovingBox, p: Point) -> MovingBox {
    MovingBox { x: p.x, y: p.y, ..b }
}

/// Squared distance from the corner of the box to the pointer.
pub open spec fn distance_sq(b: MovingBox, p: Point) -> int {
    speed_sq(p.x - b.x, p.y - b.y)
}

/// One component of a velocity of squared length `m2` that points along a
/// vector of squared length `d2` whose component on this axis is `c`.
///
/// In exact arithmetic the component is `sqrt(m2) * c / sqrt(d2)`. This is
/// that number cut towards zero: its size is the whole root of
/// `m2 * c * c / d2`, its sign that of `c`.
pub open spec fn follow_axis(m2: int, d2: int, c: int) -> int
    recommends
        d2 > 0,
{
    let len = floor_sqrt((m2 * (c * c)) / d2);
    if c < 0 {
        -len
    } else {
        len
    }
}

/// The box with its velocity turned towards the pointer.
pub open spec fn turned(b: MovingBox, p: Point) -> MovingBox
    recommends
        distance_sq(b, p) > 0,
{
    MovingBox {
        vx: follow_axis(b.speed_sq(), distance_sq(b, p), p.x - b.x) as i32,
        vy: follow_axis(b.speed_sq(), distance_sq(b, p), p.y - b.y) as i32,
        ..b
    }
}

/// What `Follow` makes of one box: turned and moved one step, or left alone
/// where it stands on the pointer.
pub open spec fn followed(b: MovingBox, p: Point) -> MovingBox {
    if p.x == b.x && p.y == b.y {
        b
    } else {
        stepped(turned(b, p))
    }
}

/// What a drag in the given mode makes of one box.
pub open spec fn dragged(mode: DragMode, b: MovingBox, p: Point) -> MovingBox {
    match mode {
        DragMode::Collect => collected(b, p),
        DragMode::Follow => followed(b, p),
    }
}

/// The size of `a`.
pub open spec fn magnitude(a: int) -> int {
    if a < 0 {
        -a
    } else {
        a
    }
}

/// What `follow_axis` yields: a number with the sign of `c` whose size `a` is
/// the largest with `a * a * d2 <= m2 * c * c`, and which is no longer than
/// the velocity it was taken from.
pub proof fn lemma_follow_axis(m2: int, d2: int, c: int)
    requires
        0 <= m2,
        0 < d2,
        c * c <= d2,
    ensures
        ({
            let a = follow_axis(m2, d2, c);
            &&& (c > 0 ==> a >= 0)
            &&& (c < 0 ==> a <= 0)
            &&& (c == 0 ==> a == 0)
            &&& a * a * d2 <= m2 * (c * c)
            &&& m2 * (c * c) < (magnitude(a) + 1) * (magnitude(a) + 1) * d2
            &&& a * a <= m2
        }),
{
    let n = m2 * (c * c);
    let q = n / d2;
    let c2 = c * c;
    assert(c2 >= 0) by (nonlinear_arith)
        requires
            c2 == c * c,
    ;
    assert(0 <= n <= m2 * d2) by (nonlinear_arith)
        requires
            n == m2 * c2,
            0 <= m2,
            0 <= c2 <= d2,
    ;
    assert(0 <= q <= m2 && q * d2 <= n < (q + 1) * d2) by (nonlinear_arith)
        requires
            q == n / d2,
            0 <= n <= m2 * d2,
            0 < d2,
    ;
    lemma_floor_sqrt_exists(q);
    let len = floor_sqrt(q);
    let a = follow_axis(m2, d2, c);
    assert(a * a == len * len) by (nonlinear_arith)
        requires
            a == len || a == -len,
    ;
    assert(magnitude(a) == len);
    assert(len * len * d2 <= q * d2) by (nonlinear_arith)
        requires
            len * len <= q,
            0 < d2,
    ;
    assert((q + 1) * d2 <= (len + 1) * (len + 1) * d2) by (nonlinear_arith)
        requires
            q + 1 <= (len + 1) * (len + 1),
            0 < d2,
    ;
    if c == 0 {
        assert(n == 0) by (nonlinear_arith)
            requires
                n == m2 * (c * c),
                c == 0,
        ;
        assert(q == 0);
        assert(len == 0) by (nonlinear_arith)
            requires
                0 <= len,
                len * len <= 0,
        ;
    }
}

/// **Collect holds every box on the pointer.** The corner of a collected
/// box is the pointer, exactly; its velocity, its side and its colour are
/// what they were.
pub proof fn lemma_collect_holds(b: MovingBox, p: Point)
    ensures
        collected(b, p).x == p.x,
        collected(b, p).y == p.y,
        collected(b, p).vx == b.vx,
        collected(b, p).vy == b.vy,
        collected(b, p).size == b.size,
        collected(b, p).color == b.color,
        b.wf() ==> collected(b, p).wf(),
{
}

/// One component of the offset to the pointer is no longer than the offset.
proof fn lemma_offset_parts(dx: int, dy: int)
    ensures
        dx * dx <= speed_sq(dx, dy),
        dy * dy <= speed_sq(dx, dy),
        dx != 0 || dy != 0 ==> speed_sq(dx, dy) > 0,
{
    assert(dx * dx >= 0 && dy * dy >= 0) by (nonlinear_arith);
    assert(dx != 0 ==> dx * dx > 0) by (nonlinear_arith);
    assert(dy != 0 ==> dy * dy > 0) by (nonlinear_arith);
}

/// **Follow keeps the speed.** A well-formed box that does not stand on the
/// pointer comes out of the turn no faster than it went in, and slower by
/// less than one grid step on each axis: lengthen both components of the new
/// velocity by one and it is faster than the old.
pub proof fn lemma_follow_keeps_speed(b: MovingBox, p: Point)
    requires
        b.wf(),
        p.x != b.x || p.y != b.y,
    ensures
        turned(b, p).speed_sq() <= b.speed_sq(),
        b.speed_sq() < speed_sq(
            magnitude(turned(b, p).vx as int) + 1,
            magnitude(turned(b, p).vy as int) + 1,
        ),
        turned(b, p).wf(),
        followed(b, p).wf(),
        followed(b, p).speed_sq() == turned(b, p).speed_sq(),
{
    let dx = p.x - b.x;
    let dy = p.y - b.y;
    let d2 = distance_sq(b, p);
    let m2 = b.speed_sq();
    lemma_offset_parts(dx, dy);
    lemma_offset_parts(b.vx as int, b.vy as int);
    lemma_follow_axis(m2, d2, dx);
    lemma_follow_axis(m2, d2, dy);
    let ax = follow_axis(m2, d2, dx);
    let ay = follow_axis(m2, d2, dy);
    lemma_fits(ax, m2);
    lemma_fits(ay, m2);
    assert(turned(b, p).vx == ax);
    assert(turned(b, p).vy == ay);
    let ex = magnitude(ax) + 1;
    let ey = magnitude(ay) + 1;
    assert(ax * ax + ay * ay <= m2 && m2 < ex * ex + ey * ey) by (nonlinear_arith)
        requires
            0 < d2,
            d2 == dx * dx + dy * dy,
            ax * ax * d2 <= m2 * (dx * dx),
            ay * ay * d2 <= m2 * (dy * dy),
            m2 * (dx * dx) < ex * ex * d2,
            m2 * (dy * dy) < ey * ey * d2,
    ;
}

/// A number whose square is at most the largest squared speed fits `i32`.
proof fn lemma_fits(a: int, m2: int)
    requires
        a * a <= m2 <= MAX_SPEED_SQ,
    ensures
        -0x7fff_ffff <= a <= 0x7fff_ffff,
{
    assert(-0x7fff_ffff <= a <= 0x7fff_ffff) by (nonlinear_arith)
        requires
            a * a <= 0x2000_0000_0000_0000,
    ;
}

/// **Follow points at the pointer.** On each axis the new velocity has the
/// sign of the offset to the pointer, and its size is the exact component
/// `speed * offset / distance` cut to a whole number: the largest `a` with
/// `a * a * distance_sq <= speed_sq * offset * offset`.
pub proof fn lemma_follow_points_at_pointer(b: MovingBox, p: Point)
    requires
        b.wf(),
        p.x != b.x || p.y != b.y,
    ensures
        ({
            let t = turned(b, p);
            let dx = p.x - b.x;
            let dy = p.y - b.y;
            let d2 = distance_sq(b, p);
            let m2 = b.speed_sq();
            &&& (dx > 0 ==> t.vx >= 0)
            &&& (dx < 0 ==> t.vx <= 0)
            &&& (dx == 0 ==> t.vx == 0)
            &&& (dy > 0 ==> t.vy >= 0)
            &&& (dy < 0 ==> t.vy <= 0)
            &&& (dy == 0 ==> t.vy == 0)
            &&& t.vx * t.vx * d2 <= m2 * (dx * dx)
            &&& m2 * (dx * dx) < (magnitude(t.vx as int) + 1) * (magnitude(t.vx as int) + 1) * d2
            &&& t.vy * t.vy * d2 <= m2 * (dy * dy)
            &&& m2 * (dy * dy) < (magnitude(t.vy as int) + 1) * (magnitude(t.vy as int) + 1) * d2
        }),
{
    let dx = p.x - b.x;
    let dy = p.y - b.y;
    let d2 = distance_sq(b, p);
    let m2 = b.speed_sq();
    lemma_offset_parts(dx, dy);
    lemma_offset_parts(b.vx as int, b.vy as int);
    lemma_follow_axis(m2, d2, dx);
    lemma_follow_axis(m2, d2, dy);
    lemma_fits(follow_axis(m2, d2, dx), m2);
    lemma_fits(follow_axis(m2, d2, dy), m2);
}

/// Computes one component of the turned velocity.
fn follow_component(m2: u64, d2: u128, c: i64) -> (part: i32)
    requires
        m2 <= MAX_SPEED_SQ,
        0 < d2 <= 0x2_0000_0000_0000_0000,
        -0x1_0000_0000 < c < 0x1_0000_0000,
        c * c <= d2,
    ensures
        part == follow_axis(m2 as int, d2 as int, c as int),
{
    proof {
        lemma_follow_axis(m2 as int, d2 as int, c as int);
        lemma_fits(follow_axis(m2 as int, d2 as int, c as int), m2 as int);
    }
    let wide: i128 = c as i128;
    assert(0 <= wide * wide <= 0xffff_ffff * 0xffff_ffff) by (nonlinear_arith)
        requires
            -0xffff_ffff <= wide <= 0xffff_ffff,
    ;
    let c2: u128 = (wide * wide) as u128;
    assert(0 <= m2 * c2 <= 0x2000_0000_0000_0000 * (0xffff_ffff * 0xffff_ffff)) by (nonlinear_arith)
        requires
            0 <= m2 <= 0x2000_0000_0000_0000,
            0 <= c2 <= 0xffff_ffff * 0xffff_ffff,
    ;
    let n: u128 = (m2 as u128) * c2;
    let q: u128 = n / d2;
    assert(q <= m2) by (nonlinear_arith)
        requires
            q == n / d2,
            n == m2 * c2,
            c2 <= d2,
            0 < d2,
            0 <= m2,
    ;
    assert(m2 as int * (c as int * c as int) == n as int);
    let len: u64 = floor_sqrt_u64(q as u64);
    if c < 0 {
        -(len as i64) as i32
    } else {
        len as i32
    }
}

/// Moves one box to the pointer.
pub fn collect_box(b: MovingBox, pointer: Point) -> (held: MovingBox)
    ensures
        held == collected(b, pointer),
        b.wf() ==> held.wf(),
{
    MovingBox { x: pointer.x, y: pointer.y, vx: b.vx, vy: b.vy, size: b.size, color: b.color }
}

/// Turns one box towards the pointer and moves it one step.
pub fn follow_box(b: MovingBox, pointer: Point) -> (next: MovingBox)
    requires
        b.wf(),
    ensures
        next == followed(b, pointer),
        next.wf(),
{
    if pointer.x == b.x && pointer.y == b.y {
        return b;
    }
    proof {
        lemma_follow_keeps_speed(b, pointer);
        lemma_offset_parts(pointer.x - b.x, pointer.y - b.y);
    }
    let dx: i64 = pointer.x as i64 - b.x as i64;
    let dy: i64 = pointer.y as i64 - b.y as i64;
    let wx: i128 = dx as i128;
    let wy: i128 = dy as i128;
    assert(0 <= wx * wx <= 0xffff_ffff * 0xffff_ffff) by (nonlinear_arith)
        requires
            -0xffff_ffff <= wx <= 0xffff_ffff,
    ;
    assert(0 <= wy * wy <= 0xffff_ffff * 0xffff_ffff) by (nonlinear_arith)
        requires
            -0xffff_ffff <= wy <= 0xffff_ffff,
    ;
    let d2: u128 = (wx * wx) as u128 + (wy * wy) as u128;
    let m2: u64 = square(b.vx) + square(b.vy);
    let vx: i32 = follow_component(m2, d2, dx);
    let vy: i32 = follow_component(m2, d2, dy);
    step_box(MovingBox { x: b.x, y: b.y, vx, vy, size: b.size, color: b.color })
}

/// Gathers every box under the pointer, in place.
///
/// Positions become the pointer's; velocities, sides and colours stay.
pub fn moves_collect(boxes: &mut Vec<MovingBox>, pointer: Point)
    ensures
        final(boxes)@.len() == old(boxes)@.len(),
        forall|i: int|
            0 <= i < old(boxes)@.len() ==> #[trigger] final(boxes)@[i] == collected(
                old(boxes)@[i],
                pointer,
            ),
        all_wf(old(boxes)@) ==> all_wf(final(boxes)@),
{
    let n: usize = boxes.len();
    let mut i: usize = 0;
    while i < n
        invariant
            i <= n,
            boxes@.len() == n,
            old(boxes)@.len() == n,
            forall|k: int| 0 <= k < i ==> #[trigger] boxes@[k] == collected(
                old(boxes)@[k],
                pointer,
            ),
            forall|k: int| i <= k < n ==> #[trigger] boxes@[k] == old(boxes)@[k],
        decreases n - i,
    {
        let held = collect_box(boxes[i], pointer);
        boxes.set(i, held);
        i += 1;
    }
}

/// Turns every box towards the pointer and moves it one step, in place.
pub fn moves_follow(boxes: &mut Vec<MovingBox>, pointer: Point)
    requires
        all_wf(old(boxes)@),
    ensures
        final(boxes)@.len() == old(boxes)@.len(),
        forall|i: int|
            0 <= i < old(boxes)@.len() ==> #[trigger] final(boxes)@[i] == followed(
                old(boxes)@[i],
                pointer,
            ),
        all_wf(final(boxes)@),
{
    let n: usize = boxes.len();
    let mut i: usize = 0;
    while i < n
        invariant
            i <= n,
            boxes@.len() == n,
            old(boxes)@.len() == n,
            forall|k: int| 0 <= k < i ==> #[trigger] boxes@[k] == followed(
                old(boxes)@[k],
                pointer,
            ),
            forall|k: int| i <= k < n ==> #[trigger] boxes@[k] == old(boxes)@[k],
            all_wf(boxes@),
        decreases n - i,
    {
        let next = follow_box(boxes[i], pointer);
        boxes.set(i, next);
        i += 1;
    }
}

/// Applies a drag in the given mode to every box, in place.
///
/// Only `Follow` computes with the velocities, so only `Follow` asks for
/// well-formed boxes.
pub fn on_moves(boxes: &mut Vec<MovingBox>, mode: DragMode, pointer: Point)
    requires
        mode == DragMode::Follow ==> all_wf(old(boxes)@),
    ensures
        final(boxes)@.len() == old(boxes)@.len(),
        forall|i: int|
            0 <= i < old(boxes)@.len() ==> #[trigger] final(boxes)@[i] == dragged(
                mode,
                old(boxes)@[i],
                pointer,
            ),
        all_wf(old(boxes)@) ==> all_wf(final(boxes)@),
{
    match mode {
        DragMode::Collect => moves_collect(boxes, pointer),
        DragMode::Follow => moves_follow(boxes, pointer),
    }
}

} // verus!
