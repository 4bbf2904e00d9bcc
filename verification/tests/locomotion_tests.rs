use combat_core::actor::Enemy;
use combat_core::behavior::EnemyBehavior;
use combat_core::config::Config;
use combat_core::locomotion::{
    base_velocity, enemy_bounds_check, enemy_movement, out_of_bounds, tilt_milli,
};
use combat_core::tracker::PlayerTracker;
use combat_core::vec2::Vec2I;

fn actor(behavior: EnemyBehavior, x: i64, y: i64, speed: i64) -> Enemy {
    Enemy::with_phase(behavior, Vec2I { x, y }, speed, 0)
}

#[test]
fn linear_actor_descends_at_assigned_speed() {
    let cfg = Config::standard();
    let tracker = PlayerTracker::new();
    let mut enemies = vec![actor(EnemyBehavior::Linear, 0, 0, 80)];
    enemy_movement(&mut enemies, &tracker, 16, &cfg);
    // 80 units/s for 16 ms is exactly 1.28 units
    assert_eq!(enemies[0].pos, Vec2I { x: 0, y: -1280 });
    assert_eq!(enemies[0].ai.timer, 16);
}

#[test]
fn homing_actor_moves_toward_the_target() {
    let cfg = Config::standard();
    let mut tracker = PlayerTracker::new();
    tracker.update(Some(Vec2I { x: 100_000, y: 0 }), 16);
    let mut enemies = vec![actor(EnemyBehavior::Homing, 0, 0, 100)];
    enemy_movement(&mut enemies, &tracker, 16, &cfg);
    assert!(enemies[0].pos.x > 0);
    assert_eq!(enemies[0].pos.y, 0);
}

#[test]
fn kamikaze_rushes_at_double_speed() {
    let e = actor(EnemyBehavior::Kamikaze, 0, 0, 100);
    let cfg = Config::standard();
    let v = base_velocity(&e, Vec2I { x: 0, y: -100_000 }, &cfg);
    assert_eq!(v, Vec2I { x: 0, y: -200 });
}

#[test]
fn zero_speed_degenerates_gracefully() {
    // no divide-by-zero anywhere: a zero-speed actor just stands still
    let cfg = Config::standard();
    let tracker = PlayerTracker::new();
    let mut enemies = vec![actor(EnemyBehavior::Zigzag, 1000, 2000, 0)];
    enemy_movement(&mut enemies, &tracker, 16, &cfg);
    assert_eq!(enemies[0].pos, Vec2I { x: 1000, y: 2000 });
}

#[test]
fn impulse_adds_to_base_velocity() {
    let cfg = Config::standard();
    let tracker = PlayerTracker::new();
    let mut e = actor(EnemyBehavior::Linear, 0, 0, 80);
    e.ai.dodge_impulse = Vec2I { x: 50, y: 10 };
    let mut enemies = vec![e];
    enemy_movement(&mut enemies, &tracker, 16, &cfg);
    assert_eq!(enemies[0].pos, Vec2I { x: 800, y: (10 - 80) * 16 });
}

#[test]
fn tilt_follows_horizontal_velocity_and_clamps() {
    assert_eq!(tilt_milli(0, 80), 0);
    assert_eq!(tilt_milli(40, 80), 100);
    assert_eq!(tilt_milli(1000, 100), 200);
    assert_eq!(tilt_milli(-1000, 100), -200);
    // zero speed is floored before dividing
    assert_eq!(tilt_milli(10, 0), 200);
}

#[test]
fn actors_beyond_the_margin_are_removed() {
    let cfg = Config::standard();
    let keep = actor(EnemyBehavior::Linear, 0, -399_999, 80);
    let drop_low = actor(EnemyBehavior::Linear, 0, -400_001, 80);
    let drop_side = actor(EnemyBehavior::Linear, 500_001, 0, 80);
    let mut enemies = vec![keep, drop_low, drop_side];
    enemy_bounds_check(&mut enemies, &cfg);
    assert_eq!(enemies.len(), 1);
    assert_eq!(enemies[0].pos, Vec2I { x: 0, y: -399_999 });
    assert!(!out_of_bounds(Vec2I { x: 0, y: -399_999 }, &cfg));
    assert!(out_of_bounds(Vec2I { x: 0, y: -400_001 }, &cfg));
}

#[test]
fn sniper_holds_station_near_the_top() {
    let cfg = Config::standard();
    // already at its station: no vertical drift
    let at_station = actor(EnemyBehavior::Sniper, 0, 200_000, 50);
    let v = base_velocity(&at_station, Vec2I { x: 0, y: 0 }, &cfg);
    assert_eq!(v.y, 0);
    // below the station: climbs, capped at its speed
    let below = actor(EnemyBehavior::Sniper, 0, 0, 50);
    let v2 = base_velocity(&below, Vec2I { x: 0, y: 0 }, &cfg);
    assert_eq!(v2.y, 50);
}

#[test]
fn zigzag_oscillates_over_time() {
    let cfg = Config::standard();
    let tracker = PlayerTracker::new();
    let mut enemies = vec![actor(EnemyBehavior::Zigzag, 0, 0, 100)];
    let mut xs: Vec<i64> = Vec::new();
    for _ in 0..240 {
        enemy_movement(&mut enemies, &tracker, 16, &cfg);
        xs.push(enemies[0].pos.x);
    }
    assert!(xs.iter().any(|&x| x > 0));
    // and the weave comes back: later positions move left again
    let max_x = xs.iter().max().copied().unwrap();
    assert!(xs.last().copied().unwrap() < max_x);
}
