use rand::rngs::StdRng;
use rand::SeedableRng;
use space_shooter::combat::{
    check_for_collision, event_handler_plugin, remove_spent, resolve_tick, respawn_fallen, Bullet, CollisionEvent, Enemy,
    Score, ENEMY_SPAWN_HEALTH,
};
use space_shooter::geometry::Point;
use space_shooter::spawn::PlayArea;
use space_shooter::sprite::SpriteImage;

fn pt(x: i32, y: i32) -> Point {
    Point { x, y }
}

fn opaque(width: u32, height: u32) -> SpriteImage {
    SpriteImage { width, height, data: Some(vec![255; (width * height * 4) as usize]) }
}

fn bullet_at(x: i32, y: i32) -> Bullet {
    Bullet { position: pt(x, y) }
}

#[test]
fn nineteen_hits_leave_one_health_twentieth_kills() {
    let img = opaque(100, 100);
    let area = PlayArea { width: 800, height: 600 };
    let mut rng = StdRng::seed_from_u64(5);
    let mut enemies = vec![Enemy::new(pt(0, 100))];
    let mut score = Score { value: 7 };
    for _ in 0..19 {
        let events = check_for_collision(&vec![bullet_at(0, 100)], &mut enemies, &img, &mut score);
        assert_eq!(events, vec![CollisionEvent { bullet: 0, enemy: 0, fatal: false }]);
        assert!(respawn_fallen(&mut enemies, area, &mut rng));
    }
    assert_eq!(enemies, vec![Enemy { position: pt(0, 100), health: 1 }]);
    assert_eq!(score.value, 7);

    let events = check_for_collision(&vec![bullet_at(0, 100)], &mut enemies, &img, &mut score);
    assert_eq!(events, vec![CollisionEvent { bullet: 0, enemy: 0, fatal: true }]);
    assert_eq!(enemies[0].health, 0);
    assert_eq!(score.value, 8);

    assert!(respawn_fallen(&mut enemies, area, &mut rng));
    assert_eq!(enemies.len(), 1);
    assert_eq!(enemies[0].health, ENEMY_SPAWN_HEALTH);
    let p = enemies[0].position;
    assert!(p.x >= -350 && p.x <= 350 && p.y >= 0 && p.y <= 250);
}

#[test]
fn one_bullet_two_overlapping_enemies_one_hit() {
    let img = opaque(10, 10);
    let mut enemies = vec![Enemy::new(pt(5, 5)), Enemy::new(pt(5, 5))];
    let mut score = Score { value: 0 };
    let events = check_for_collision(&vec![bullet_at(5, 5)], &mut enemies, &img, &mut score);
    assert_eq!(events.len(), 1);
    assert_eq!(events[0], CollisionEvent { bullet: 0, enemy: 0, fatal: false });
    assert_eq!(enemies[0].health, 19);
    assert_eq!(enemies[1].health, 20);
    assert_eq!(score.value, 0);
}

#[test]
fn two_bullets_share_out_over_live_enemies() {
    let img = opaque(10, 10);
    let mut enemies = vec![Enemy { position: pt(0, 0), health: 1 }, Enemy::new(pt(0, 0))];
    let mut score = Score { value: 0 };
    let bullets = vec![bullet_at(0, 0), bullet_at(100, 100), bullet_at(1, 1)];
    let events = check_for_collision(&bullets, &mut enemies, &img, &mut score);
    assert_eq!(
        events,
        vec![
            CollisionEvent { bullet: 0, enemy: 0, fatal: true },
            CollisionEvent { bullet: 2, enemy: 1, fatal: false },
        ]
    );
    assert_eq!(enemies[0].health, 0);
    assert_eq!(enemies[1].health, 19);
    assert_eq!(score.value, 1);
}

#[test]
fn dead_enemy_is_not_hit_again() {
    let img = opaque(10, 10);
    let mut enemies = vec![Enemy { position: pt(0, 0), health: 1 }];
    let mut score = Score { value: 0 };
    let bullets = vec![bullet_at(0, 0), bullet_at(0, 0)];
    let events = check_for_collision(&bullets, &mut enemies, &img, &mut score);
    assert_eq!(events, vec![CollisionEvent { bullet: 0, enemy: 0, fatal: true }]);
    assert_eq!(enemies[0].health, 0);
    assert_eq!(score.value, 1);
}

#[test]
fn no_image_no_hits() {
    let img = SpriteImage { width: 10, height: 10, data: None };
    let mut enemies = vec![Enemy::new(pt(0, 0))];
    let mut score = Score { value: 0 };
    let events = check_for_collision(&vec![bullet_at(0, 0)], &mut enemies, &img, &mut score);
    assert!(events.is_empty());
    assert_eq!(enemies[0].health, 20);
}

#[test]
fn empty_tick_changes_nothing() {
    let img = opaque(10, 10);
    let mut enemies: Vec<Enemy> = Vec::new();
    let mut score = Score { value: 3 };
    let events = check_for_collision(&vec![bullet_at(0, 0)], &mut enemies, &img, &mut score);
    assert!(events.is_empty());
    let mut enemies = vec![Enemy::new(pt(0, 0))];
    let events = check_for_collision(&Vec::new(), &mut enemies, &img, &mut score);
    assert!(events.is_empty());
    assert_eq!(score.value, 3);
}

#[test]
fn respawn_keeps_live_enemies_and_skips_small_area() {
    let mut rng = StdRng::seed_from_u64(11);
    let live = Enemy { position: pt(1, 2), health: 3 };
    let dead = Enemy { position: pt(4, 5), health: 0 };
    let mut enemies = vec![live, dead];
    assert!(!respawn_fallen(&mut enemies, PlayArea { width: 10, height: 10 }, &mut rng));
    assert_eq!(enemies, vec![live, dead]);
    assert!(respawn_fallen(&mut enemies, PlayArea { width: 800, height: 600 }, &mut rng));
    assert_eq!(enemies[0], live);
    assert_eq!(enemies[1].health, 20);
}

#[test]
fn take_hit_reports_the_fatal_one() {
    let mut e = Enemy { position: pt(0, 0), health: 2 };
    assert!(e.is_alive());
    assert!(!e.take_hit());
    assert_eq!(e.health, 1);
    assert!(e.take_hit());
    assert_eq!(e.health, 0);
    assert!(!e.is_alive());
}

#[test]
fn sound_once_per_tick_with_hits() {
    assert!(!event_handler_plugin::should_play_sound(&Vec::new()));
    let evs = vec![
        CollisionEvent { bullet: 0, enemy: 0, fatal: false },
        CollisionEvent { bullet: 1, enemy: 0, fatal: false },
    ];
    assert!(event_handler_plugin::should_play_sound(&evs));
}

#[test]
fn tick_resolves_and_respawns_together() {
    let img = opaque(10, 10);
    let area = PlayArea { width: 800, height: 600 };
    let mut rng = StdRng::seed_from_u64(21);
    let far = Enemy { position: pt(-300, 200), health: 4 };
    let mut enemies = vec![Enemy { position: pt(0, 0), health: 1 }, far];
    let mut score = Score { value: 0 };
    let bullets = vec![bullet_at(0, 0), bullet_at(0, 0)];
    let events = resolve_tick(&bullets, &mut enemies, &img, &mut score, area, &mut rng);
    assert_eq!(events, vec![CollisionEvent { bullet: 0, enemy: 0, fatal: true }]);
    assert_eq!(score.value, 1);
    assert_eq!(enemies[0].health, ENEMY_SPAWN_HEALTH);
    let p = enemies[0].position;
    assert!(p.x >= -350 && p.x <= 350 && p.y >= 0 && p.y <= 250);
    assert_eq!(enemies[1], far);
}

#[test]
fn tick_in_tiny_area_is_skipped() {
    let img = opaque(10, 10);
    let mut rng = StdRng::seed_from_u64(2);
    let mut enemies = vec![Enemy { position: pt(0, 0), health: 1 }];
    let mut score = Score { value: 0 };
    let area = PlayArea { width: 50, height: 50 };
    let events = resolve_tick(&vec![bullet_at(0, 0)], &mut enemies, &img, &mut score, area, &mut rng);
    assert!(events.is_empty());
    assert_eq!(enemies, vec![Enemy { position: pt(0, 0), health: 1 }]);
    assert_eq!(score.value, 0);
    let area = PlayArea { width: 0, height: 0 };
    let events = resolve_tick(&vec![bullet_at(0, 0)], &mut enemies, &img, &mut score, area, &mut rng);
    assert!(events.is_empty());
    assert_eq!(enemies[0].health, 1);
}

#[test]
fn spent_bullets_removed_once_in_order() {
    let bullets = vec![bullet_at(1, 0), bullet_at(2, 0), bullet_at(3, 0), bullet_at(4, 0)];
    let events = vec![
        CollisionEvent { bullet: 1, enemy: 0, fatal: false },
        CollisionEvent { bullet: 3, enemy: 2, fatal: true },
    ];
    assert_eq!(remove_spent(&bullets, &events), vec![bullet_at(1, 0), bullet_at(3, 0)]);
    assert_eq!(remove_spent(&bullets, &Vec::new()), bullets);
    assert!(remove_spent(&Vec::new(), &events).is_empty());
}

#[test]
fn score_starts_at_zero() {
    assert_eq!(Score::default(), Score { value: 0 });
}

#[test]
fn transparent_sprite_tick_changes_nothing() {
    let img = SpriteImage { width: 10, height: 10, data: Some(vec![255, 255, 255, 0].repeat(100)) };
    let start = vec![Enemy::new(pt(0, 0)), Enemy { position: pt(3, 3), health: 1 }];
    let mut enemies = start.clone();
    let mut score = Score { value: 4 };
    let bullets: Vec<Bullet> = (-6..6).map(|i| bullet_at(i, -i)).collect();
    let events = check_for_collision(&bullets, &mut enemies, &img, &mut score);
    assert!(events.is_empty());
    assert_eq!(enemies, start);
    assert_eq!(score.value, 4);
    assert_eq!(remove_spent(&bullets, &events), bullets);
}
