use vstd::prelude::*;

use crate::components::{BoundingBox, Velocity};
use crate::geometry::Rect;
use crate::resources::TimeDelta;

verus! {

/// Microseconds in one second.
pub const MICROS_PER_SECOND: i128 = 1_000_000;

/// Integer division rounding towards zero (as Rust's `/` does), for `b > 0`.
pub open spec fn trunc_div(a: int, b: int) -> int {
    if a >= 0 {
        a / b
    } else {
        -((-a) / b)
    }
}

/// Pixels travelled at `speed` pixels per second during `micros` microseconds;
/// the division by one million comes last so that only one rounding occurs.
pub open spec fn travel_distance(speed: int, micros: int) -> int {
    trunc_div(speed * micros, MICROS_PER_SECOND as int)
}

/// The x coordinate of the box after moving for `dt` at velocity `v`.
pub open spec fn candidate_x(b: Rect, v: Velocity, dt: TimeDelta) -> int {
    b.x + v.direction.unit_x() * travel_distance(v.speed as int, dt.0 as int)
}

/// The y coordinate of the box after moving for `dt` at velocity `v`.
pub open spec fn candidate_y(b: Rect, v: Velocity, dt: TimeDelta) -> int {
    b.y + v.direction.unit_y() * travel_distance(v.speed as int, dt.0 as int)
}

/// The moved box lies inside the world bounds.
pub open spec fn candidate_inside(bounds: Rect, b: Rect, v: Velocity, dt: TimeDelta) -> bool {
    let x = candidate_x(b, v, dt);
    let y = candidate_y(b, v, dt);
    &&& bounds.left() <= x
    &&& x + b.width <= bounds.right()
    &&& bounds.top() <= y
    &&& y + b.height <= bounds.bottom()
}

/// The bounding box after one frame: a still entity stays; a moving one is
/// shifted by its displacement when the result stays inside the world, and
/// does not move at all otherwise.
pub open spec fn moved(bounds: Rect, v: Velocity, b: BoundingBox, dt: TimeDelta) -> BoundingBox {
    if v.speed == 0 || !candidate_inside(bounds, b.0, v, dt) {
        b
    } else {
        BoundingBox(
            Rect {
                x: candidate_x(b.0, v, dt) as i32,
                y: candidate_y(b.0, v, dt) as i32,
                width: b.0.width,
                height: b.0.height,
            },
        )
    }
}

/// Moves one bounding box for one frame.
pub fn move_box(world_bounds: Rect, v: Velocity, b: BoundingBox, dt: TimeDelta) -> (r: BoundingBox)
    requires
        world_bounds.wf(),
    ensures
        r == moved(world_bounds, v, b, dt),
{
    if v.speed == 0 {
        return b;
    }
    let speed = v.speed as i128;
    let micros = dt.0 as i128;
    assert(-0x8000_0000 <= speed <= 0x7fff_ffff);
    assert(0 <= micros <= 0xffff_ffff_ffff_ffff);
    assert(-0x8000_0000 * 0x1_0000_0000_0000_0000 <= speed * micros <= 0x8000_0000
        * 0x1_0000_0000_0000_0000) by (nonlinear_arith)
        requires
            -0x8000_0000 <= speed <= 0x7fff_ffff,
            0 <= micros <= 0xffff_ffff_ffff_ffff,
    ;
    let product = speed * micros;
    let distance: i128 = if product >= 0 {
        product / MICROS_PER_SECOND
    } else {
        -((-product) / MICROS_PER_SECOND)
    };
    assert(distance == travel_distance(v.speed as int, dt.0 as int));
    assert(-0x8000_0000 * 0x1_0000_0000_0000_0000 <= distance <= 0x8000_0000
        * 0x1_0000_0000_0000_0000);
    let step = v.direction.into_point();
    let dx: i128 = if step.x == 0 {
        0
    } else if step.x > 0 {
        distance
    } else {
        -distance
    };
    let dy: i128 = if step.y == 0 {
        0
    } else if step.y > 0 {
        distance
    } else {
        -distance
    };
    assert(dx == v.direction.unit_x() * distance) by (nonlinear_arith)
        requires
            v.direction.unit_x() == step.x,
            step.x == 0 ==> dx == 0,
            step.x > 0 ==> step.x == 1 && dx == distance,
            step.x < 0 ==> step.x == -1 && dx == -distance,
    ;
    assert(dy == v.direction.unit_y() * distance) by (nonlinear_arith)
        requires
            v.direction.unit_y() == step.y,
            step.y == 0 ==> dy == 0,
            step.y > 0 ==> step.y == 1 && dy == distance,
            step.y < 0 ==> step.y == -1 && dy == -distance,
    ;
    let x = b.0.x as i128 + dx;
    let y = b.0.y as i128 + dy;
    let left = world_bounds.x as i128;
    let top = world_bounds.y as i128;
    let right = left + world_bounds.width as i128;
    let bottom = top + world_bounds.height as i128;
    if left <= x && x + b.0.width as i128 <= right && top <= y && y + b.0.height as i128 <= bottom {
        BoundingBox(Rect { x: x as i32, y: y as i32, width: b.0.width, height: b.0.height })
    } else {
        b
    }
}

/// An entity at rest never moves. A moving entity whose destination stays inside
/// the world has its centre displaced by exactly the unit vector of its
/// direction times the distance travelled, keeping its size; when the destination
/// would leave the world it does not move at all.
pub proof fn lemma_motion(world_bounds: Rect, v: Velocity, b: BoundingBox, dt: TimeDelta)
    requires
        world_bounds.wf(),
    ensures
        v.speed == 0 ==> moved(world_bounds, v, b, dt) == b,
        v.speed != 0 && candidate_inside(world_bounds, b.0, v, dt) ==> {
            let r = moved(world_bounds, v, b, dt).0;
            let d = travel_distance(v.speed as int, dt.0 as int);
            &&& r.center_x() == b.0.center_x() + v.direction.unit_x() * d
            &&& r.center_y() == b.0.center_y() + v.direction.unit_y() * d
            &&& r.width == b.0.width
            &&& r.height == b.0.height
        },
        v.speed != 0 && !candidate_inside(world_bounds, b.0, v, dt) ==> moved(
            world_bounds,
            v,
            b,
            dt,
        ) == b,
        v.speed >= 0 ==> travel_distance(v.speed as int, dt.0 as int) == (v.speed as int) * (
        dt.0 as int) / 1_000_000,
{
    assert(v.speed >= 0 ==> (v.speed as int) * (dt.0 as int) >= 0) by (nonlinear_arith);
}

} // verus!
