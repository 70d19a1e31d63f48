//! Hit resolution: bullets against enemy ships, health and score.
use vstd::prelude::*;
use rand::rngs::StdRng;
use crate::geometry::Point;
use crate::sprite::{
    SpriteImage,
    fully_transparent,
    lemma_transparent_never_hit,
    pixel_hit,
    pixel_hit_spec,
};
use crate::spawn::{
    spawn_bounds,
    PlayArea,
    SpawnRule,
    ENEMY_SQUARE_BOX_LENGTH,
    spawn_position,
    spawn_possible,
    within_spawn_bounds,
};

verus! {

/// Health of a newly spawned enemy.
pub const ENEMY_SPAWN_HEALTH: u32 = 20;

/// A bullet in flight.
#[derive(Clone, Copy, Debug, PartialEq, Eq, Structural)]
pub struct Bullet {
    pub position: Point,
}

/// An enemy ship: alive while its health is above zero, dead at zero.
#[derive(Clone, Copy, Debug, PartialEq, Eq, Structural)]
pub struct Enemy {
    pub position: Point,
    pub health: u32,
}

/// One accepted hit of a tick: which bullet struck which enemy, and whether
/// that hit took the enemy's last point of health.
#[derive(Clone, Copy, Debug, PartialEq, Eq, Structural)]
pub struct CollisionEvent {
    pub bullet: usize,
    pub enemy: usize,
    pub fatal: bool,
}

/// The player's score: one point per enemy destroyed.
#[derive(Clone, Copy, Debug, PartialEq, Eq, Structural)]
pub struct Score {
    pub value: u64,
}

/// Turns a tick's hits into the collision sound: one sound for a tick in
/// which any hit landed, however many.
#[allow(non_camel_case_types)]
pub struct event_handler_plugin;

impl event_handler_plugin {
    pub fn should_play_sound(events: &Vec<CollisionEvent>) -> (r: bool)
        ensures
            r == (events@.len() > 0),
    {
        events.len() > 0
    }
}

impl Default for Score {
    fn default() -> (r: Score)
        ensures
            r.value == 0,
    {
        Score { value: 0 }
    }
}

/// The placement rule for enemies, as `SpawnRule::enemy` builds it.
pub open spec fn enemy_spawn_rule() -> SpawnRule {
    SpawnRule { box_length: ENEMY_SQUARE_BOX_LENGTH, upper_half_only: true }
}

/// Health after one accepted hit; zero is terminal.
pub open spec fn hit_step(h: nat) -> nat {
    if h == 0 {
        0
    } else {
        (h - 1) as nat
    }
}

/// Health after `n` hits, starting from `h`.
pub open spec fn health_after(h: nat, n: nat) -> nat
    decreases n,
{
    if n == 0 {
        h
    } else {
        hit_step(health_after(h, (n - 1) as nat))
    }
}

/// How many of the first `n` hits, starting from health `h`, took the last
/// point of health.
pub open spec fn deaths_after(h: nat, n: nat) -> nat
    decreases n,
{
    if n == 0 {
        0
    } else {
        deaths_after(h, (n - 1) as nat) + if health_after(h, (n - 1) as nat) == 1 {
            1nat
        } else {
            0nat
        }
    }
}

/// The bullet strikes the enemy: the enemy is alive and the bullet lies on
/// an opaque pixel of its sprite.
pub open spec fn strikes(b: Bullet, e: Enemy, image: SpriteImage) -> bool {
    e.health > 0 && pixel_hit_spec(b.position, e.position, image)
}

/// Index of the first enemy at or after `from` that the bullet strikes, or
/// the number of enemies if none is.
pub open spec fn first_struck(b: Bullet, es: Seq<Enemy>, image: SpriteImage, from: int) -> int
    decreases es.len() - from,
{
    if from >= es.len() {
        es.len() as int
    } else if strikes(b, es[from], image) {
        from
    } else {
        first_struck(b, es, image, from + 1)
    }
}

/// The enemies after one bullet has been resolved: the first enemy it
/// strikes, if any, loses one point of health.
pub open spec fn after_bullet(es: Seq<Enemy>, b: Bullet, image: SpriteImage) -> Seq<Enemy> {
    let j = first_struck(b, es, image, 0);
    if j < es.len() {
        es.update(j, Enemy { position: es[j].position, health: (es[j].health - 1) as u32 })
    } else {
        es
    }
}

/// The enemies after the bullets have been resolved one after another.
pub open spec fn enemies_after(es: Seq<Enemy>, bs: Seq<Bullet>, image: SpriteImage) -> Seq<Enemy>
    decreases bs.len(),
{
    if bs.len() == 0 {
        es
    } else {
        after_bullet(enemies_after(es, bs.drop_last(), image), bs.last(), image)
    }
}

/// The accepted hits of resolving the bullets one after another, in order.
pub open spec fn events_of(es: Seq<Enemy>, bs: Seq<Bullet>, image: SpriteImage) -> Seq<
    CollisionEvent,
>
    decreases bs.len(),
{
    if bs.len() == 0 {
        seq![]
    } else {
        let before = enemies_after(es, bs.drop_last(), image);
        let j = first_struck(bs.last(), before, image, 0);
        let earlier = events_of(es, bs.drop_last(), image);
        if j < before.len() {
            earlier.push(
                CollisionEvent {
                    bullet: (bs.len() - 1) as usize,
                    enemy: j as usize,
                    fatal: before[j].health == 1,
                },
            )
        } else {
            earlier
        }
    }
}

/// How many of the events destroyed their enemy.
pub open spec fn fatal_count(evs: Seq<CollisionEvent>) -> nat
    decreases evs.len(),
{
    if evs.len() == 0 {
        0
    } else {
        fatal_count(evs.drop_last()) + if evs.last().fatal {
            1nat
        } else {
            0nat
        }
    }
}

proof fn lemma_first_struck(b: Bullet, es: Seq<Enemy>, image: SpriteImage, from: int)
    requires
        0 <= from,
    ensures
        from <= first_struck(b, es, image, from) <= es.len() || (from > es.len()
            && first_struck(b, es, image, from) == es.len()),
        first_struck(b, es, image, from) < es.len() ==> strikes(
            b,
            es[first_struck(b, es, image, from)],
            image,
        ),
        forall|k: int|
            from <= k < first_struck(b, es, image, from) ==> !strikes(b, #[trigger] es[k], image),
    decreases es.len() - from,
{
    if from < es.len() && !strikes(b, es[from], image) {
        lemma_first_struck(b, es, image, from + 1);
    }
}

proof fn lemma_fatal_count_bound(evs: Seq<CollisionEvent>)
    ensures
        fatal_count(evs) <= evs.len(),
    decreases evs.len(),
{
    if evs.len() > 0 {
        lemma_fatal_count_bound(evs.drop_last());
    }
}

impl Enemy {
    /// A fresh enemy at `position` with full health.
    pub fn new(position: Point) -> (r: Enemy)
        ensures
            r.position == position,
            r.health == ENEMY_SPAWN_HEALTH,
    {
        Enemy { position, health: ENEMY_SPAWN_HEALTH }
    }

    pub fn is_alive(&self) -> (r: bool)
        ensures
            r == (self.health > 0),
    {
        self.health > 0
    }

    /// Takes one accepted hit; returns whether it was the fatal one.
    pub fn take_hit(&mut self) -> (fatal: bool)
        requires
            old(self).health > 0,
        ensures
            final(self).position == old(self).position,
            final(self).health == hit_step(old(self).health as nat),
            fatal == (final(self).health == 0),
    {
        self.health = self.health - 1;
        self.health == 0
    }

    /// A fresh enemy at a random position inside the spawn ranges for
    /// enemies; `None` where the area is too small.
    pub fn spawn(area: PlayArea, rng: &mut StdRng) -> (r: Option<Enemy>)
        ensures
            r.is_some() == spawn_possible(area, enemy_spawn_rule()),
            r matches Some(e) ==> e.health == ENEMY_SPAWN_HEALTH && within_spawn_bounds(
                e.position,
                area,
                enemy_spawn_rule(),
            ),
    {
        let rule = SpawnRule::enemy();
        match spawn_position(area, rule, rng) {
            None => None,
            Some(p) => Some(Enemy::new(p)),
        }
    }
}

fn first_struck_index(b: Bullet, enemies: &Vec<Enemy>, image: &SpriteImage) -> (j: usize)
    ensures
        j == first_struck(b, enemies@, *image, 0),
{
    let mut j: usize = 0;
    while j < enemies.len()
        invariant
            j <= enemies.len(),
            first_struck(b, enemies@, *image, 0) == first_struck(b, enemies@, *image, j as int),
        decreases enemies.len() - j,
    {
        if enemies[j].health > 0 && pixel_hit(b.position, enemies[j].position, image) {
            return j;
        }
        j = j + 1;
    }
    j
}

/// Resolves one tick: each bullet in turn strikes the first live enemy whose
/// opaque pixels it lies on, and is then spent, so that it strikes no other.
/// The struck enemy loses one point of health; each enemy whose health
/// reaches zero adds one to the score. Returns the hits in order.
pub fn check_for_collision(
    bullets: &Vec<Bullet>,
    enemies: &mut Vec<Enemy>,
    image: &SpriteImage,
    score: &mut Score,
) -> (events: Vec<CollisionEvent>)
    requires
        old(score).value + bullets.len() <= u64::MAX,
    ensures
        final(enemies)@ == enemies_after(old(enemies)@, bullets@, *image),
        events@ == events_of(old(enemies)@, bullets@, *image),
        final(score).value == old(score).value + fatal_count(events@),
{
    let ghost start = enemies@;
    let mut events: Vec<CollisionEvent> = Vec::new();
    let mut i: usize = 0;
    while i < bullets.len()
        invariant
            i <= bullets.len(),
            enemies@ == enemies_after(start, bullets@.take(i as int), *image),
            events@ == events_of(start, bullets@.take(i as int), *image),
            events@.len() <= i,
            score.value == old(score).value + fatal_count(events@),
            old(score).value + bullets.len() <= u64::MAX,
        decreases bullets.len() - i,
    {
        let ghost prefix = bullets@.take(i as int);
        assert(bullets@.take(i + 1).drop_last() == prefix);
        assert(bullets@.take(i + 1).last() == bullets@[i as int]);
        let b = bullets[i];
        let ghost before = enemies@;
        let j = first_struck_index(b, enemies, image);
        proof {
            lemma_first_struck(b, before, *image, 0);
        }
        if j < enemies.len() {
            let mut e = enemies[j];
            let fatal = e.take_hit();
            enemies.set(j, e);
            let ev = CollisionEvent { bullet: i, enemy: j, fatal };
            events.push(ev);
            proof {
                lemma_fatal_count_bound(events@.drop_last());
                assert(events@.drop_last() == events_of(start, prefix, *image));
            }
            if fatal {
                score.value = score.value + 1;
            }
            assert(enemies@ =~= after_bullet(before, b, *image));
        } else {
            assert(enemies@ =~= after_bullet(before, b, *image));
        }
        assert(enemies@ =~= enemies_after(start, bullets@.take(i + 1), *image));
        i = i + 1;
    }
    assert(bullets@.take(bullets.len() as int) == bullets@);
    events
}

/// Replaces every dead enemy with a fresh one at a random position inside
/// the enemy spawn ranges, leaving live enemies as they are. Where the area
/// is too small nothing changes and `false` is returned.
pub fn respawn_fallen(enemies: &mut Vec<Enemy>, area: PlayArea, rng: &mut StdRng) -> (done: bool)
    ensures
        done == spawn_possible(area, enemy_spawn_rule()),
        final(enemies)@.len() == old(enemies)@.len(),
        forall|j: int|
            0 <= j < old(enemies)@.len() && (old(enemies)@[j].health > 0 || !done) ==> (
            #[trigger] final(enemies)@[j]) == old(enemies)@[j],
        forall|j: int|
            0 <= j < old(enemies)@.len() && old(enemies)@[j].health == 0 && done ==> (
            #[trigger] final(enemies)@[j]).health == ENEMY_SPAWN_HEALTH && within_spawn_bounds(
                final(enemies)@[j].position,
                area,
                enemy_spawn_rule(),
            ),
{
    if spawn_bounds(area, SpawnRule::enemy()).is_none() {
        return false;
    }
    let ghost start = enemies@;
    let mut j: usize = 0;
    while j < enemies.len()
        invariant
            j <= enemies.len(),
            spawn_possible(area, enemy_spawn_rule()),
            enemies@.len() == start.len(),
            forall|k: int| j <= k < start.len() ==> #[trigger] enemies@[k] == start[k],
            forall|k: int|
                0 <= k < j && start[k].health > 0 ==> #[trigger] enemies@[k] == start[k],
            forall|k: int|
                0 <= k < j && start[k].health == 0 ==> (#[trigger] enemies@[k]).health
                    == ENEMY_SPAWN_HEALTH && within_spawn_bounds(
                    enemies@[k].position,
                    area,
                    enemy_spawn_rule(),
                ),
        decreases enemies.len() - j,
    {
        if enemies[j].health == 0 {
            if let Some(e) = Enemy::spawn(area, rng) {
                enemies.set(j, e);
            }
        }
        j = j + 1;
    }
    true
}

/// One tick of hit resolution. Where the area is too small to place an
/// enemy the play area is not well formed and the whole tick is skipped: no
/// hit, no change. Otherwise resolves the bullets as `check_for_collision`
/// does, then replaces every dead enemy with a fresh one placed at random.
pub fn resolve_tick(
    bullets: &Vec<Bullet>,
    enemies: &mut Vec<Enemy>,
    image: &SpriteImage,
    score: &mut Score,
    area: PlayArea,
    rng: &mut StdRng,
) -> (events: Vec<CollisionEvent>)
    requires
        old(score).value + bullets.len() <= u64::MAX,
    ensures
        !spawn_possible(area, enemy_spawn_rule()) ==> events@.len() == 0 && final(enemies)@
            == old(enemies)@ && final(score).value == old(score).value,
        spawn_possible(area, enemy_spawn_rule()) ==> events@ == events_of(
            old(enemies)@,
            bullets@,
            *image,
        ) && final(score).value == old(score).value + fatal_count(events@)
            && final(enemies)@.len() == old(enemies)@.len(),
        forall|j: int|
            0 <= j < old(enemies)@.len() && spawn_possible(area, enemy_spawn_rule())
                && enemies_after(old(enemies)@, bullets@, *image)[j].health > 0
                ==> #[trigger] final(enemies)@[j] == enemies_after(old(enemies)@, bullets@, *image)[j],
        forall|j: int|
            0 <= j < old(enemies)@.len() && spawn_possible(area, enemy_spawn_rule())
                && enemies_after(old(enemies)@, bullets@, *image)[j].health == 0 ==> (
            #[trigger] final(enemies)@[j]).health == ENEMY_SPAWN_HEALTH && within_spawn_bounds(
                final(enemies)@[j].position,
                area,
                enemy_spawn_rule(),
            ),
{
    if spawn_bounds(area, SpawnRule::enemy()).is_none() {
        return Vec::new();
    }
    proof {
        lemma_enemies_after_len(enemies@, bullets@, *image);
    }
    let events = check_for_collision(bullets, enemies, image, score);
    respawn_fallen(enemies, area, rng);
    events
}

/// Bullet `i` was spent by one of the hits.
pub open spec fn spent(evs: Seq<CollisionEvent>, i: int) -> bool {
    exists|k: int| 0 <= k < evs.len() && (#[trigger] evs[k]).bullet == i
}

/// The first `n` bullets without those that the hits spent, in order.
pub open spec fn surviving(bs: Seq<Bullet>, evs: Seq<CollisionEvent>, n: int) -> Seq<Bullet>
    decreases n,
{
    if n <= 0 {
        seq![]
    } else if spent(evs, n - 1) {
        surviving(bs, evs, n - 1)
    } else {
        surviving(bs, evs, n - 1).push(bs[n - 1])
    }
}

fn is_spent(events: &Vec<CollisionEvent>, i: usize) -> (r: bool)
    ensures
        r == spent(events@, i as int),
{
    let mut k: usize = 0;
    while k < events.len()
        invariant
            k <= events.len(),
            forall|m: int| 0 <= m < k ==> (#[trigger] events@[m]).bullet != i,
        decreases events.len() - k,
    {
        if events[k].bullet == i {
            return true;
        }
        k = k + 1;
    }
    false
}

/// The bullets left after a tick: each bullet that a hit spent is removed,
/// once, and the others keep their order.
pub fn remove_spent(bullets: &Vec<Bullet>, events: &Vec<CollisionEvent>) -> (r: Vec<Bullet>)
    ensures
        r@ == surviving(bullets@, events@, bullets@.len() as int),
{
    let mut r: Vec<Bullet> = Vec::new();
    let mut i: usize = 0;
    while i < bullets.len()
        invariant
            i <= bullets.len(),
            r@ == surviving(bullets@, events@, i as int),
        decreases bullets.len() - i,
    {
        if !is_spent(events, i) {
            r.push(bullets[i]);
        }
        i = i + 1;
    }
    r
}

/// An enemy with health `h` becomes dead on exactly its `h`-th accepted hit:
/// after `n` hits its health is `h - n` (zero once `n >= h`), and it has died
/// once in all from then on, never before and never twice.
pub proof fn lemma_hits_until_death(h: nat, n: nat)
    requires
        h > 0,
    ensures
        health_after(h, n) == if n <= h {
            (h - n) as nat
        } else {
            0nat
        },
        deaths_after(h, n) == if n >= h {
            1nat
        } else {
            0nat
        },
    decreases n,
{
    if n > 0 {
        lemma_hits_until_death(h, (n - 1) as nat);
    }
}

proof fn lemma_enemies_after_len(es: Seq<Enemy>, bs: Seq<Bullet>, image: SpriteImage)
    ensures
        enemies_after(es, bs, image).len() == es.len(),
    decreases bs.len(),
{
    if bs.len() > 0 {
        lemma_enemies_after_len(es, bs.drop_last(), image);
        lemma_first_struck(bs.last(), enemies_after(es, bs.drop_last(), image), image, 0);
    }
}

/// Within one tick each bullet registers at most one hit: the hits name
/// bullets in strictly increasing order, so no bullet is spent twice, and
/// each names a bullet and an enemy that exist.
pub proof fn lemma_bullet_spent_once(es: Seq<Enemy>, bs: Seq<Bullet>, image: SpriteImage)
    requires
        es.len() <= usize::MAX,
        bs.len() <= usize::MAX,
    ensures
        events_of(es, bs, image).len() <= bs.len(),
        forall|p: int, q: int|
            0 <= p < q < events_of(es, bs, image).len() ==> (#[trigger] events_of(
                es,
                bs,
                image,
            )[p]).bullet < (#[trigger] events_of(es, bs, image)[q]).bullet,
        forall|p: int|
            0 <= p < events_of(es, bs, image).len() ==> (#[trigger] events_of(es, bs, image)[p]).bullet
                < bs.len() && events_of(es, bs, image)[p].enemy < es.len(),
    decreases bs.len(),
{
    if bs.len() > 0 {
        let rest = bs.drop_last();
        lemma_bullet_spent_once(es, rest, image);
        let before = enemies_after(es, rest, image);
        lemma_enemies_after_len(es, rest, image);
        lemma_first_struck(bs.last(), before, image, 0);
        let earlier = events_of(es, rest, image);
        let evs = events_of(es, bs, image);
        assert forall|p: int| 0 <= p < earlier.len() implies #[trigger] evs[p] == earlier[p] by {}
        assert forall|p: int, q: int|
            0 <= p < q < evs.len() implies (#[trigger] evs[p]).bullet < (#[trigger] evs[q]).bullet by {
            assert(evs[p] == earlier[p]);
            if q < earlier.len() {
                assert(evs[q] == earlier[q]);
            }
        }
        assert forall|p: int| 0 <= p < evs.len() implies (#[trigger] evs[p]).bullet < bs.len()
            && evs[p].enemy < es.len() by {
            if p < earlier.len() {
                assert(evs[p] == earlier[p]);
            }
        }
    }
}

/// Within one tick an enemy dies at most once: no two fatal hits name the
/// same enemy, and every enemy named by a fatal hit ends the tick dead.
pub proof fn lemma_death_counted_once(es: Seq<Enemy>, bs: Seq<Bullet>, image: SpriteImage)
    requires
        es.len() <= usize::MAX,
        bs.len() <= usize::MAX,
    ensures
        forall|p: int, q: int|
            0 <= p < q < events_of(es, bs, image).len() && events_of(es, bs, image)[p].fatal
                && events_of(es, bs, image)[q].fatal ==> (#[trigger] events_of(es, bs, image)[p]).enemy
                != (#[trigger] events_of(es, bs, image)[q]).enemy,
        forall|p: int|
            0 <= p < events_of(es, bs, image).len() && (#[trigger] events_of(es, bs, image)[p]).fatal
                ==> enemies_after(es, bs, image)[events_of(es, bs, image)[p].enemy as int].health
                == 0,
    decreases bs.len(),
{
    if bs.len() > 0 {
        let rest = bs.drop_last();
        lemma_death_counted_once(es, rest, image);
        lemma_bullet_spent_once(es, rest, image);
        lemma_bullet_spent_once(es, bs, image);
        let before = enemies_after(es, rest, image);
        lemma_enemies_after_len(es, rest, image);
        lemma_first_struck(bs.last(), before, image, 0);
        let earlier = events_of(es, rest, image);
        let evs = events_of(es, bs, image);
        let j = first_struck(bs.last(), before, image, 0);
        let after = enemies_after(es, bs, image);
        assert(after == after_bullet(before, bs.last(), image));
        assert forall|p: int|
            0 <= p < evs.len() && (#[trigger] evs[p]).fatal implies after[evs[p].enemy as int].health
            == 0 by {
            if p < earlier.len() {
                assert(evs[p] == earlier[p]);
                let k = earlier[p].enemy as int;
                assert(before[k].health == 0);
                if j < before.len() {
                    assert(k != j);
                    assert(after[k] == before[k]);
                }
            } else {
                assert(j < before.len());
                assert(evs[p].enemy == j);
            }
        }
        assert forall|p: int, q: int|
            0 <= p < q < evs.len() && evs[p].fatal && evs[q].fatal implies (#[trigger] evs[p]).enemy
            != (#[trigger] evs[q]).enemy by {
            assert(evs[p] == earlier[p]);
            if q == earlier.len() {
                assert(before[evs[p].enemy as int].health == 0);
                assert(evs[q].enemy == j);
            } else {
                assert(evs[q] == earlier[q]);
            }
        }
    }
}

/// How many of the hits name a bullet below `n`.
pub open spec fn count_below(evs: Seq<CollisionEvent>, n: int) -> nat
    decreases evs.len(),
{
    if evs.len() == 0 {
        0
    } else {
        count_below(evs.drop_last(), n) + if evs.last().bullet < n {
            1nat
        } else {
            0nat
        }
    }
}

pub open spec fn bullets_increasing(evs: Seq<CollisionEvent>) -> bool {
    forall|p: int, q: int|
        0 <= p < q < evs.len() ==> (#[trigger] evs[p]).bullet < (#[trigger] evs[q]).bullet
}

proof fn lemma_count_below_step(evs: Seq<CollisionEvent>, m: int)
    requires
        bullets_increasing(evs),
    ensures
        count_below(evs, m + 1) == count_below(evs, m) + if spent(evs, m) {
            1nat
        } else {
            0nat
        },
    decreases evs.len(),
{
    if evs.len() > 0 {
        let init = evs.drop_last();
        assert(bullets_increasing(init)) by {
            assert forall|p: int, q: int| 0 <= p < q < init.len() implies (
            #[trigger] init[p]).bullet < (#[trigger] init[q]).bullet by {
                assert(init[p] == evs[p] && init[q] == evs[q]);
            }
        }
        lemma_count_below_step(init, m);
        let last = evs.last();
        if spent(init, m) {
            let k = choose|k: int| 0 <= k < init.len() && (#[trigger] init[k]).bullet == m;
            assert(evs[k] == init[k]);
            assert(evs[k].bullet < evs[evs.len() - 1].bullet);
            assert(spent(evs, m));
        } else if last.bullet == m {
            assert(evs[evs.len() - 1].bullet == m);
            assert(spent(evs, m));
        } else {
            assert(!spent(evs, m)) by {
                if spent(evs, m) {
                    let k = choose|k: int| 0 <= k < evs.len() && (#[trigger] evs[k]).bullet == m;
                    if k < init.len() {
                        assert(init[k] == evs[k]);
                    }
                }
            }
        }
    }
}

proof fn lemma_surviving_len(bs: Seq<Bullet>, evs: Seq<CollisionEvent>, n: int)
    requires
        bullets_increasing(evs),
        0 <= n,
    ensures
        surviving(bs, evs, n).len() + count_below(evs, n) == n,
    decreases n,
{
    if n == 0 {
        lemma_count_below_zero(evs);
    } else {
        lemma_surviving_len(bs, evs, n - 1);
        lemma_count_below_step(evs, n - 1);
    }
}

proof fn lemma_count_below_zero(evs: Seq<CollisionEvent>)
    ensures
        count_below(evs, 0) == 0,
    decreases evs.len(),
{
    if evs.len() > 0 {
        lemma_count_below_zero(evs.drop_last());
    }
}

proof fn lemma_count_below_all(evs: Seq<CollisionEvent>, n: int)
    requires
        forall|k: int| 0 <= k < evs.len() ==> (#[trigger] evs[k]).bullet < n,
    ensures
        count_below(evs, n) == evs.len(),
    decreases evs.len(),
{
    if evs.len() > 0 {
        let init = evs.drop_last();
        assert forall|k: int| 0 <= k < init.len() implies (#[trigger] init[k]).bullet < n by {
            assert(init[k] == evs[k]);
        }
        lemma_count_below_all(init, n);
    }
}

/// Removing the bullets spent in a tick removes exactly one bullet per hit:
/// no bullet is consumed twice.
pub proof fn lemma_spent_removed_once(es: Seq<Enemy>, bs: Seq<Bullet>, image: SpriteImage)
    requires
        es.len() <= usize::MAX,
        bs.len() <= usize::MAX,
    ensures
        surviving(bs, events_of(es, bs, image), bs.len() as int).len() + events_of(
            es,
            bs,
            image,
        ).len() == bs.len(),
{
    let evs = events_of(es, bs, image);
    lemma_bullet_spent_once(es, bs, image);
    lemma_surviving_len(bs, evs, bs.len() as int);
    lemma_count_below_all(evs, bs.len() as int);
}

/// With a fully transparent sprite a tick registers no hit, whatever the
/// bullets: no event, every enemy unchanged, and so no point scored.
pub proof fn lemma_transparent_tick(es: Seq<Enemy>, bs: Seq<Bullet>, image: SpriteImage)
    requires
        fully_transparent(image),
    ensures
        events_of(es, bs, image).len() == 0,
        enemies_after(es, bs, image) == es,
        fatal_count(events_of(es, bs, image)) == 0,
    decreases bs.len(),
{
    if bs.len() > 0 {
        lemma_transparent_tick(es, bs.drop_last(), image);
        lemma_first_struck(bs.last(), es, image, 0);
        let j = first_struck(bs.last(), es, image, 0);
        if j < es.len() {
            lemma_transparent_never_hit(bs.last().position, es[j].position, image);
        }
    }
}

/// A single bullet registers at most one hit. If it lies over live enemies,
/// the first of them, and only that one, loses one point of health; the
/// hit names that enemy and is fatal exactly when its health was one.
pub proof fn lemma_one_bullet_one_hit(es: Seq<Enemy>, b: Bullet, image: SpriteImage)
    requires
        es.len() <= usize::MAX,
    ensures
        ({
            let j = first_struck(b, es, image, 0);
            let evs = events_of(es, seq![b], image);
            let after = enemies_after(es, seq![b], image);
            &&& 0 <= j <= es.len()
            &&& forall|k: int| 0 <= k < j ==> !strikes(b, #[trigger] es[k], image)
            &&& after.len() == es.len()
            &&& forall|k: int| 0 <= k < es.len() && k != j ==> #[trigger] after[k] == es[k]
            &&& j == es.len() ==> evs.len() == 0
            &&& j < es.len() ==> strikes(b, es[j], image) && evs == seq![
                CollisionEvent { bullet: 0, enemy: j as usize, fatal: es[j].health == 1 },
            ] && after[j].position == es[j].position && after[j].health == es[j].health - 1
        }),
{
    let bs = seq![b];
    let none = Seq::<Bullet>::empty();
    assert(bs.drop_last() =~= none);
    assert(bs.last() == b);
    assert(enemies_after(es, none, image) == es);
    assert(events_of(es, none, image) == Seq::<CollisionEvent>::empty());
    assert(enemies_after(es, bs, image) == after_bullet(es, b, image));
    lemma_first_struck(b, es, image, 0);
    let j = first_struck(b, es, image, 0);
    let evs = events_of(es, bs, image);
    if j < es.len() {
        let ev = CollisionEvent { bullet: 0, enemy: j as usize, fatal: es[j].health == 1 };
        assert(evs == Seq::<CollisionEvent>::empty().push(ev));
        assert(evs =~= seq![ev]);
    } else {
        assert(evs == Seq::<CollisionEvent>::empty());
    }
}

/// How many of the first `n` enemies were alive in `es` and are dead in `fs`.
pub open spec fn newly_dead(es: Seq<Enemy>, fs: Seq<Enemy>, n: int) -> nat
    decreases n,
{
    if n <= 0 {
        0
    } else {
        newly_dead(es, fs, n - 1) + if es[n - 1].health > 0 && fs[n - 1].health == 0 {
            1nat
        } else {
            0nat
        }
    }
}

proof fn lemma_newly_dead_update(es: Seq<Enemy>, fs: Seq<Enemy>, j: int, g: Enemy, n: int)
    requires
        fs.len() == es.len(),
        0 <= j < fs.len(),
        0 <= n <= fs.len(),
        fs[j].health > 0,
        es[j].health >= fs[j].health,
        g.health == fs[j].health - 1,
    ensures
        newly_dead(es, fs.update(j, g), n) == newly_dead(es, fs, n) + if j < n && fs[j].health
            == 1 {
            1nat
        } else {
            0nat
        },
    decreases n,
{
    if n > 0 {
        lemma_newly_dead_update(es, fs, j, g, n - 1);
    }
}

/// The points a tick scores are the enemies it kills: the fatal hits
/// number exactly the enemies alive before the tick and dead after it, so
/// the score rises by one per death and never more. No enemy gains health.
pub proof fn lemma_score_counts_deaths(es: Seq<Enemy>, bs: Seq<Bullet>, image: SpriteImage)
    ensures
        enemies_after(es, bs, image).len() == es.len(),
        fatal_count(events_of(es, bs, image)) == newly_dead(
            es,
            enemies_after(es, bs, image),
            es.len() as int,
        ),
        forall|k: int|
            0 <= k < es.len() ==> (#[trigger] enemies_after(es, bs, image)[k]).health
                <= es[k].health,
    decreases bs.len(),
{
    lemma_enemies_after_len(es, bs, image);
    if bs.len() == 0 {
        assert(fatal_count(events_of(es, bs, image)) == 0);
        lemma_newly_dead_none(es, es.len() as int);
    } else {
        let rest = bs.drop_last();
        lemma_score_counts_deaths(es, rest, image);
        let before = enemies_after(es, rest, image);
        let b = bs.last();
        lemma_first_struck(b, before, image, 0);
        let j = first_struck(b, before, image, 0);
        let earlier = events_of(es, rest, image);
        let evs = events_of(es, bs, image);
        let after = enemies_after(es, bs, image);
        assert(after == after_bullet(before, b, image));
        if j < before.len() {
            let g = Enemy { position: before[j].position, health: (before[j].health - 1) as u32 };
            assert(after == before.update(j, g));
            lemma_newly_dead_update(es, before, j, g, es.len() as int);
            assert(evs.drop_last() == earlier);
            assert(forall|k: int| 0 <= k < es.len() && k != j ==> after[k] == before[k]);
        }
    }
}

proof fn lemma_newly_dead_none(es: Seq<Enemy>, n: int)
    requires
        n <= es.len(),
    ensures
        newly_dead(es, es, n) == 0,
    decreases n,
{
    if n > 0 {
        lemma_newly_dead_none(es, n - 1);
    }
}

/// The enemies after `n` ticks, each resolving the single bullet `b`.
pub open spec fn after_ticks(es: Seq<Enemy>, b: Bullet, image: SpriteImage, n: nat) -> Seq<Enemy>
    decreases n,
{
    if n == 0 {
        es
    } else {
        enemies_after(after_ticks(es, b, image, (n - 1) as nat), seq![b], image)
    }
}

/// The points scored over those `n` ticks.
pub open spec fn score_over_ticks(es: Seq<Enemy>, b: Bullet, image: SpriteImage, n: nat) -> nat
    decreases n,
{
    if n == 0 {
        0
    } else {
        score_over_ticks(es, b, image, (n - 1) as nat) + fatal_count(
            events_of(after_ticks(es, b, image, (n - 1) as nat), seq![b], image),
        )
    }
}

/// A lone enemy of health `h`, struck by one bullet in each tick, stays put
/// and is alive with health `h - n` after `n < h` ticks, without a point
/// scored; it dies in tick `h`, which scores exactly one point, and no
/// later tick scores again.
pub proof fn lemma_lone_enemy_over_ticks(e: Enemy, b: Bullet, image: SpriteImage, n: nat)
    requires
        e.health > 0,
        pixel_hit_spec(b.position, e.position, image),
    ensures
        after_ticks(seq![e], b, image, n).len() == 1,
        after_ticks(seq![e], b, image, n)[0].position == e.position,
        after_ticks(seq![e], b, image, n)[0].health == if n <= e.health {
            e.health - n
        } else {
            0
        },
        score_over_ticks(seq![e], b, image, n) == if n >= e.health {
            1nat
        } else {
            0nat
        },
    decreases n,
{
    if n > 0 {
        let m = (n - 1) as nat;
        lemma_lone_enemy_over_ticks(e, b, image, m);
        let es = after_ticks(seq![e], b, image, m);
        lemma_one_bullet_one_hit(es, b, image);
        let evs = events_of(es, seq![b], image);
        if es[0].health > 0 {
            assert(strikes(b, es[0], image));
            assert(first_struck(b, es, image, 0) == 0);
            assert(evs.drop_last() =~= Seq::<CollisionEvent>::empty());
            assert(fatal_count(evs.drop_last()) == 0);
            assert(fatal_count(evs) == if es[0].health == 1 {
                1nat
            } else {
                0nat
            });
        } else {
            assert(!strikes(b, es[0], image));
            assert(first_struck(b, es, image, 1) == 1);
            assert(first_struck(b, es, image, 0) == 1);
            assert(fatal_count(evs) == 0);
        }
    }
}

} // verus!
