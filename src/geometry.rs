//! Circle-versus-box intersection.
use vstd::prelude::*;

verus! {

/// A point of the world, in whole units; y grows upward.
#[derive(Clone, Copy, Debug, PartialEq, Eq, Structural)]
pub struct Point {
    pub x: i32,
    pub y: i32,
}

/// An axis-aligned box, given by its center and its half extents.
#[derive(Clone, Copy, Debug, PartialEq, Eq, Structural)]
pub struct Aabb {
    pub center: Point,
    pub half_width: u32,
    pub half_height: u32,
}

/// A disc, given by its center and its radius.
#[derive(Clone, Copy, Debug, PartialEq, Eq, Structural)]
pub struct Circle {
    pub center: Point,
    pub radius: u32,
}

impl Aabb {
    pub open spec fn min_x(self) -> int {
        self.center.x - self.half_width
    }

    pub open spec fn max_x(self) -> int {
        self.center.x + self.half_width
    }

    pub open spec fn min_y(self) -> int {
        self.center.y - self.half_height
    }

    pub open spec fn max_y(self) -> int {
        self.center.y + self.half_height
    }

    /// The point lies strictly inside the box.
    pub open spec fn strictly_contains(self, p: Point) -> bool {
        self.min_x() < p.x < self.max_x() && self.min_y() < p.y < self.max_y()
    }
}

pub open spec fn clamp_spec(v: int, lo: int, hi: int) -> int {
    if v < lo {
        lo
    } else if v > hi {
        hi
    } else {
        v
    }
}

/// Squared distance from `p` to the nearest point of the box (zero inside it).
pub open spec fn sq_dist_to_box(p: Point, b: Aabb) -> int {
    let dx = p.x - clamp_spec(p.x as int, b.min_x(), b.max_x());
    let dy = p.y - clamp_spec(p.y as int, b.min_y(), b.max_y());
    dx * dx + dy * dy
}

/// The disc touches or overlaps the box.
pub open spec fn circle_hits_box(c: Circle, b: Aabb) -> bool {
    sq_dist_to_box(c.center, b) <= c.radius * c.radius
}

fn clamp_coord(v: i64, lo: i64, hi: i64) -> (r: i64)
    requires
        lo <= hi,
    ensures
        r == clamp_spec(v as int, lo as int, hi as int),
{
    if v < lo {
        lo
    } else if v > hi {
        hi
    } else {
        v
    }
}

/// Closest-point test: clamp the disc's center to the box and compare the
/// squared distance to that point with the squared radius.
pub fn ball_collision(bullet_circle: Circle, bounding_box: Aabb) -> (r: bool)
    ensures
        r == circle_hits_box(bullet_circle, bounding_box),
{
    let c = bullet_circle.center;
    let b = bounding_box;
    let min_x: i64 = b.center.x as i64 - b.half_width as i64;
    let max_x: i64 = b.center.x as i64 + b.half_width as i64;
    let min_y: i64 = b.center.y as i64 - b.half_height as i64;
    let max_y: i64 = b.center.y as i64 + b.half_height as i64;
    let dx: i64 = c.x as i64 - clamp_coord(c.x as i64, min_x, max_x);
    let dy: i64 = c.y as i64 - clamp_coord(c.y as i64, min_y, max_y);
    let dx: i128 = dx as i128;
    let dy: i128 = dy as i128;
    let r: i128 = bullet_circle.radius as i128;
    assert(0 <= dx * dx <= 0x100_0000_0000_0000_0000) by (nonlinear_arith)
        requires
            -0x4_0000_0000 <= dx <= 0x4_0000_0000,
    ;
    assert(0 <= dy * dy <= 0x100_0000_0000_0000_0000) by (nonlinear_arith)
        requires
            -0x4_0000_0000 <= dy <= 0x4_0000_0000,
    ;
    assert(0 <= r * r <= 0x1_0000_0000_0000_0000) by (nonlinear_arith)
        requires
            0 <= r <= 0xffff_ffff,
    ;
    let dx2: i128 = dx * dx;
    let dy2: i128 = dy * dy;
    dx2 + dy2 <= r * r
}

/// A disc whose center lies strictly inside a box hits it, whatever its radius.
pub proof fn lemma_center_inside_hits(c: Circle, b: Aabb)
    requires
        b.strictly_contains(c.center),
    ensures
        circle_hits_box(c, b),
{
    let dx = c.center.x - clamp_spec(c.center.x as int, b.min_x(), b.max_x());
    let dy = c.center.y - clamp_spec(c.center.y as int, b.min_y(), b.max_y());
    assert(dx == 0 && dy == 0);
    assert(dx * dx + dy * dy == 0) by (nonlinear_arith)
        requires
            dx == 0 && dy == 0,
    ;
    assert(c.radius * c.radius >= 0) by (nonlinear_arith);
}

/// A disc whose center is farther from the box than its radius misses it.
pub proof fn lemma_far_center_misses(c: Circle, b: Aabb)
    requires
        sq_dist_to_box(c.center, b) > c.radius * c.radius,
    ensures
        !circle_hits_box(c, b),
{
}

/// A disc whose center lies, along one axis, more than its radius beyond the
/// box's nearest edge misses it.
pub proof fn lemma_separated_axis_misses(c: Circle, b: Aabb)
    requires
        c.center.x < b.min_x() - c.radius || c.center.x > b.max_x() + c.radius
            || c.center.y < b.min_y() - c.radius || c.center.y > b.max_y() + c.radius,
    ensures
        !circle_hits_box(c, b),
{
    let dx = c.center.x - clamp_spec(c.center.x as int, b.min_x(), b.max_x());
    let dy = c.center.y - clamp_spec(c.center.y as int, b.min_y(), b.max_y());
    let r = c.radius as int;
    assert(dx * dx >= 0 && dy * dy >= 0) by (nonlinear_arith);
    if dx > r || dx < -r {
        assert(dx * dx > r * r) by (nonlinear_arith)
            requires
                dx > r || dx < -r,
                r >= 0,
        ;
    } else {
        assert(dy > r || dy < -r);
        assert(dy * dy > r * r) by (nonlinear_arith)
            requires
                dy > r || dy < -r,
                r >= 0,
        ;
    }
}

} // verus!
