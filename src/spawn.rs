//! Random placement of a new ship so that its box stays inside the play area.
use vstd::prelude::*;
use rand::rngs::StdRng;
use rand::Rng;
use crate::geometry::Point;

verus! {

/// rand's seedable generator, carried through unopened: a seeded one makes
/// placement repeatable.
#[verifier::external_type_specification]
#[verifier::external_body]
pub struct ExStdRng(StdRng);

/// Side of the square box that an enemy ship occupies.
pub const ENEMY_SQUARE_BOX_LENGTH: u32 = 100;

/// The visible play area, centered on the origin.
#[derive(Clone, Copy, Debug, PartialEq, Eq, Structural)]
pub struct PlayArea {
    pub width: u32,
    pub height: u32,
}

/// How a ship is placed: the side of its square box, and whether it is
/// kept to the upper half of the screen.
#[derive(Clone, Copy, Debug, PartialEq, Eq, Structural)]
pub struct SpawnRule {
    pub box_length: u32,
    pub upper_half_only: bool,
}

/// The inclusive ranges from which a position is drawn.
#[derive(Clone, Copy, Debug, PartialEq, Eq, Structural)]
pub struct SpawnBounds {
    pub x_min: i32,
    pub x_max: i32,
    pub y_min: i32,
    pub y_max: i32,
}

pub open spec fn spawn_x_min(area: PlayArea, rule: SpawnRule) -> int {
    rule.box_length / 2 - area.width / 2
}

pub open spec fn spawn_x_max(area: PlayArea, rule: SpawnRule) -> int {
    area.width / 2 - rule.box_length / 2
}

pub open spec fn spawn_y_min(area: PlayArea, rule: SpawnRule) -> int {
    if rule.upper_half_only {
        0
    } else {
        rule.box_length / 2 - area.height / 2
    }
}

pub open spec fn spawn_y_max(area: PlayArea, rule: SpawnRule) -> int {
    area.height / 2 - rule.box_length / 2
}

/// Both ranges are non-empty: the area is large enough to place a ship.
pub open spec fn spawn_possible(area: PlayArea, rule: SpawnRule) -> bool {
    spawn_x_min(area, rule) <= spawn_x_max(area, rule) && spawn_y_min(area, rule)
        <= spawn_y_max(area, rule)
}

pub open spec fn within_spawn_bounds(p: Point, area: PlayArea, rule: SpawnRule) -> bool {
    spawn_x_min(area, rule) <= p.x <= spawn_x_max(area, rule) && spawn_y_min(area, rule) <= p.y
        <= spawn_y_max(area, rule)
}

impl SpawnRule {
    /// Enemies: a square box of `ENEMY_SQUARE_BOX_LENGTH`, upper half only.
    pub fn enemy() -> (r: SpawnRule)
        ensures
            r.box_length == ENEMY_SQUARE_BOX_LENGTH,
            r.upper_half_only,
    {
        SpawnRule { box_length: ENEMY_SQUARE_BOX_LENGTH, upper_half_only: true }
    }
}

/// Relies on rand's `Rng::gen_range` on an inclusive integer range: the value
/// drawn lies in the range (the call panics on an empty range).
#[verifier::external_body]
fn draw_between(rng: &mut StdRng, lo: i32, hi: i32) -> (r: i32)
    requires
        lo <= hi,
    ensures
        lo <= r <= hi,
{
    rng.gen_range(lo..=hi)
}

/// The ranges for `x` and `y`, or `None` where the area is too small.
pub fn spawn_bounds(area: PlayArea, rule: SpawnRule) -> (r: Option<SpawnBounds>)
    ensures
        r.is_some() == spawn_possible(area, rule),
        r matches Some(b) ==> b.x_min == spawn_x_min(area, rule) && b.x_max == spawn_x_max(
            area,
            rule,
        ) && b.y_min == spawn_y_min(area, rule) && b.y_max == spawn_y_max(area, rule),
{
    let half_len: i64 = (rule.box_length / 2) as i64;
    let half_w: i64 = (area.width / 2) as i64;
    let half_h: i64 = (area.height / 2) as i64;
    let x_min: i64 = half_len - half_w;
    let x_max: i64 = half_w - half_len;
    let y_min: i64 = if rule.upper_half_only {
        0
    } else {
        half_len - half_h
    };
    let y_max: i64 = half_h - half_len;
    if x_min <= x_max && y_min <= y_max {
        Some(
            SpawnBounds {
                x_min: x_min as i32,
                x_max: x_max as i32,
                y_min: y_min as i32,
                y_max: y_max as i32,
            },
        )
    } else {
        None
    }
}

/// Draws a position uniformly from the spawn ranges; `None`, with nothing
/// drawn, where the area is too small.
pub fn spawn_position(area: PlayArea, rule: SpawnRule, rng: &mut StdRng) -> (r: Option<Point>)
    ensures
        r.is_some() == spawn_possible(area, rule),
        r matches Some(p) ==> within_spawn_bounds(p, area, rule),
{
    match spawn_bounds(area, rule) {
        None => None,
        Some(b) => {
            let x = draw_between(rng, b.x_min, b.x_max);
            let y = draw_between(rng, b.y_min, b.y_max);
            Some(Point { x, y })
        },
    }
}

} // verus!
