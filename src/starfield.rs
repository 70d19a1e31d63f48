//! The scrolling star background.
use vstd::prelude::*;
use vstd::arithmetic::div_mod::lemma_fundamental_div_mod_converse;

verus! {

use crate::geometry::Point;

/// Distance between neighbouring stars, both ways.
pub const STAR_SPACING: i32 = 20;

/// Rows of stars; they start this many rows below the origin.
pub const STAR_ROWS: usize = 100;

/// Stars per row on each side of the vertical axis, the axis included.
pub const STAR_COLUMNS: usize = 50;

/// How far the stars climb at each scroll.
pub const STAR_SCROLL_STEP: i32 = 10;

/// Interval between two scrolls.
pub const STAR_SCROLL_TIMER_MS: u64 = 5000;

/// Star `k` of the field: stars come in pairs, mirrored about the vertical
/// axis, row by row from the bottom, `STAR_COLUMNS` pairs to a row.
pub open spec fn star_at(k: int) -> Point {
    let cell = k / 2;
    let row = cell / STAR_COLUMNS as int;
    let col = cell % STAR_COLUMNS as int;
    Point {
        x: (if k % 2 == 0 {
            STAR_SPACING * col
        } else {
            -STAR_SPACING * col
        }) as i32,
        y: (STAR_SPACING * (row - STAR_ROWS / 2)) as i32,
    }
}

/// A star's height after one scroll: it climbs by `STAR_SCROLL_STEP` and,
/// once above half the window's height, drops back by that half.
pub open spec fn scrolled(y: int, window_height: u32) -> int {
    let up = y + STAR_SCROLL_STEP;
    if up > window_height / 2 {
        up - window_height / 2
    } else {
        up
    }
}

/// The star background.
pub struct SpacePointPlugin;

impl SpacePointPlugin {
    /// All stars of the field, in the order of `star_at`.
    pub fn star_field() -> (r: Vec<Point>)
        ensures
            r@.len() == 2 * STAR_ROWS * STAR_COLUMNS,
            forall|k: int| 0 <= k < r@.len() ==> #[trigger] r@[k] == star_at(k),
    {
        let mut r: Vec<Point> = Vec::new();
        let mut row: usize = 0;
        while row < STAR_ROWS
            invariant
                row <= STAR_ROWS,
                r@.len() == 2 * (STAR_COLUMNS * row),
                forall|k: int| 0 <= k < r@.len() ==> #[trigger] r@[k] == star_at(k),
            decreases STAR_ROWS - row,
        {
            let y: i32 = STAR_SPACING * (row as i32 - (STAR_ROWS / 2) as i32);
            let mut col: usize = 0;
            while col < STAR_COLUMNS
                invariant
                    row < STAR_ROWS,
                    col <= STAR_COLUMNS,
                    y == STAR_SPACING * (row - STAR_ROWS / 2),
                    r@.len() == 2 * (STAR_COLUMNS * row + col),
                    forall|k: int| 0 <= k < r@.len() ==> #[trigger] r@[k] == star_at(k),
                decreases STAR_COLUMNS - col,
            {
                let x: i32 = STAR_SPACING * col as i32;
                let ghost cell = STAR_COLUMNS * row + col;
                proof {
                    lemma_fundamental_div_mod_converse(2 * cell, 2, cell, 0);
                    lemma_fundamental_div_mod_converse(2 * cell + 1, 2, cell, 1);
                    lemma_fundamental_div_mod_converse(
                        cell,
                        STAR_COLUMNS as int,
                        row as int,
                        col as int,
                    );
                }
                r.push(Point { x, y });
                r.push(Point { x: -x, y });
                col = col + 1;
            }
            row = row + 1;
        }
        r
    }

    /// Scrolls one star's height.
    pub fn scroll(y: i32, window_height: u32) -> (r: i32)
        requires
            y + STAR_SCROLL_STEP <= i32::MAX,
        ensures
            r == scrolled(y as int, window_height),
    {
        let up: i64 = y as i64 + STAR_SCROLL_STEP as i64;
        let half: i64 = (window_height / 2) as i64;
        if up > half {
            (up - half) as i32
        } else {
            up as i32
        }
    }
}

} // verus!
