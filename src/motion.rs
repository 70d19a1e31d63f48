//! Movement of the player's jet and of bullets, and where new bullets start.
use vstd::prelude::*;
use crate::geometry::Point;
use crate::spawn::PlayArea;
use crate::combat::{Bullet, Enemy};

verus! {

/// Side of the square box that the player's jet occupies.
pub const JET_SQUARE_BOX_LENGTH: u32 = 50;

/// How far the jet moves per tick while a direction key is held.
pub const JET_TRAVEL_DISTANCE: i32 = 5;

/// How far a bullet climbs per tick.
pub const BULLET_VELOCITY: i32 = 5;

/// Radius of a bullet's disc.
pub const BULLET_CIRCLE_RADIUS: u32 = 5;

/// Interval between two volleys.
pub const BULLET_CREATE_TIMER_MS: u64 = 500;

/// Speed of a bullet fired by the player.
pub const PLAYER_BULLET_SPEED: u32 = 50;

/// Speed of a bullet fired by an enemy.
pub const ENEMY_BULLET_SPEED: u32 = 75;

/// The player's jet.
#[derive(Clone, Copy, Debug, PartialEq, Eq, Structural)]
pub struct Jet {
    pub position: Point,
}

/// The control keys held during a tick.
#[derive(Clone, Copy, Debug, PartialEq, Eq, Structural)]
pub struct KeysHeld {
    pub up: bool,
    pub down: bool,
    pub left: bool,
    pub right: bool,
    pub escape: bool,
}

/// A request to fire a bullet with `speed` along the vector `(dx, dy)`,
/// which is not normalized.
#[derive(Clone, Copy, Debug, PartialEq, Eq, Structural)]
pub struct BulletEvent {
    pub speed: u32,
    pub dx: i64,
    pub dy: i64,
}

/// Where the jet goes for the held keys: one key is obeyed, in the order
/// up, down, left, right, and only while the jet's box stays strictly
/// inside the area after the move.
pub open spec fn steered(p: Point, keys: KeysHeld, area: PlayArea) -> Point {
    let half = JET_SQUARE_BOX_LENGTH / 2;
    let d = JET_TRAVEL_DISTANCE as int;
    if keys.up {
        if 2 * (p.y + half + d) < area.height {
            Point { x: p.x, y: (p.y + d) as i32 }
        } else {
            p
        }
    } else if keys.down {
        if 2 * (p.y - half - d) > -area.height {
            Point { x: p.x, y: (p.y - d) as i32 }
        } else {
            p
        }
    } else if keys.left {
        if 2 * (p.x - half - d) > -area.width {
            Point { x: (p.x - d) as i32, y: p.y }
        } else {
            p
        }
    } else if keys.right {
        if 2 * (p.x + half + d) < area.width {
            Point { x: (p.x + d) as i32, y: p.y }
        } else {
            p
        }
    } else {
        p
    }
}

/// Escape leaves the game, unless a direction key is held as well.
pub open spec fn leaves(keys: KeysHeld) -> bool {
    !keys.up && !keys.down && !keys.left && !keys.right && keys.escape
}

impl Jet {
    /// Moves the jet for the held keys; returns whether the player asked to
    /// leave the game.
    pub fn steer(&mut self, keys: KeysHeld, area: PlayArea) -> (leave: bool)
        ensures
            final(self).position == steered(old(self).position, keys, area),
            leave == leaves(keys),
    {
        let half: i64 = (JET_SQUARE_BOX_LENGTH / 2) as i64;
        let d: i64 = JET_TRAVEL_DISTANCE as i64;
        let x: i64 = self.position.x as i64;
        let y: i64 = self.position.y as i64;
        let w: i64 = area.width as i64;
        let h: i64 = area.height as i64;
        if keys.up {
            if 2 * (y + half + d) < h {
                self.position.y = (y + d) as i32;
            }
            false
        } else if keys.down {
            if 2 * (y - half - d) > -h {
                self.position.y = (y - d) as i32;
            }
            false
        } else if keys.left {
            if 2 * (x - half - d) > -w {
                self.position.x = (x - d) as i32;
            }
            false
        } else if keys.right {
            if 2 * (x + half + d) < w {
                self.position.x = (x + d) as i32;
            }
            false
        } else {
            keys.escape
        }
    }
}

/// The bullet after one tick: it climbs by `BULLET_VELOCITY`, and is gone
/// once it is above the top edge of the area.
pub open spec fn advanced(b: Bullet, area: PlayArea) -> Option<Bullet> {
    let y = b.position.y + BULLET_VELOCITY;
    if 2 * y > area.height {
        None
    } else {
        Some(Bullet { position: Point { x: b.position.x, y: y as i32 } })
    }
}

impl Bullet {
    /// Moves the bullet one tick; `None` once it has left the area.
    pub fn advance(self, area: PlayArea) -> (r: Option<Bullet>)
        ensures
            r == advanced(self, area),
    {
        let y: i64 = self.position.y as i64 + BULLET_VELOCITY as i64;
        if 2 * y > area.height as i64 {
            None
        } else {
            Some(Bullet { position: Point { x: self.position.x, y: y as i32 } })
        }
    }
}

/// A new bullet at the top edge of a ship's box.
pub fn muzzle_bullet(ship: Point) -> (r: Bullet)
    requires
        ship.y + JET_SQUARE_BOX_LENGTH / 2 <= i32::MAX,
    ensures
        r.position.x == ship.x,
        r.position.y == ship.y + JET_SQUARE_BOX_LENGTH / 2,
{
    Bullet { position: Point { x: ship.x, y: ship.y + (JET_SQUARE_BOX_LENGTH / 2) as i32 } }
}

/// The player fires straight up.
pub fn player_shot() -> (r: BulletEvent)
    ensures
        r == (BulletEvent { speed: PLAYER_BULLET_SPEED, dx: 0, dy: 1 }),
{
    BulletEvent { speed: PLAYER_BULLET_SPEED, dx: 0, dy: 1 }
}

/// Each enemy fires at the player: along the vector from the enemy to the
/// player.
pub fn enemy_volley(enemies: &Vec<Enemy>, player: Point) -> (r: Vec<BulletEvent>)
    ensures
        r@.len() == enemies@.len(),
        forall|k: int|
            0 <= k < enemies@.len() ==> #[trigger] r@[k] == (BulletEvent {
                speed: ENEMY_BULLET_SPEED,
                dx: (player.x - enemies@[k].position.x) as i64,
                dy: (player.y - enemies@[k].position.y) as i64,
            }),
{
    let mut r: Vec<BulletEvent> = Vec::new();
    let mut k: usize = 0;
    while k < enemies.len()
        invariant
            k <= enemies.len(),
            r@.len() == k,
            forall|m: int|
                0 <= m < k ==> #[trigger] r@[m] == (BulletEvent {
                    speed: ENEMY_BULLET_SPEED,
                    dx: (player.x - enemies@[m].position.x) as i64,
                    dy: (player.y - enemies@[m].position.y) as i64,
                }),
        decreases enemies.len() - k,
    {
        let from = enemies[k].position;
        r.push(
            BulletEvent {
                speed: ENEMY_BULLET_SPEED,
                dx: player.x as i64 - from.x as i64,
                dy: player.y as i64 - from.y as i64,
            },
        );
        k = k + 1;
    }
    r
}

} // verus!
