use combat_core::actor::{Enemy, EnemySpawner};
use combat_core::behavior::EnemyBehavior;
use combat_core::config::Config;
use combat_core::targeting::{
    EnemyWeapon, aim_direction, enemy_shooting, lead_offset, weapon_step,
};
use combat_core::tracker::PlayerTracker;
use combat_core::vec2::Vec2I;

#[test]
fn tracker_estimates_velocity_by_finite_difference() {
    let mut t = PlayerTracker::new();
    t.update(Some(Vec2I { x: 1000, y: 2000 }), 16);
    // first sighting: position taken over, no velocity yet
    assert_eq!(t.position, Vec2I { x: 1000, y: 2000 });
    assert_eq!(t.velocity, Vec2I { x: 0, y: 0 });
    t.update(Some(Vec2I { x: 1160, y: 2160 }), 16);
    assert_eq!(t.velocity, Vec2I { x: 10, y: 10 });
}

#[test]
fn tracker_retains_last_value_when_target_absent() {
    let mut t = PlayerTracker::new();
    t.update(Some(Vec2I { x: 5000, y: -7000 }), 16);
    t.update(Some(Vec2I { x: 5160, y: -7000 }), 16);
    let before = t;
    t.update(None, 16);
    assert_eq!(t, before);
}

#[test]
fn cooldown_ticks_down_and_fires_at_zero() {
    let mut w = EnemyWeapon { fire_rate: 800, cooldown: 100, bullet_speed: 280, damage: 12_000 };
    let fired = weapon_step(&mut w, 16);
    assert!(!fired);
    assert_eq!(w.cooldown, 84);
    let fired2 = weapon_step(&mut w, 100);
    assert!(fired2);
    assert_eq!(w.cooldown, 1250);
}

#[test]
fn zero_accuracy_aims_straight_at_the_target() {
    let dir = aim_direction(
        Vec2I { x: 0, y: 0 },
        Vec2I { x: 0, y: 100_000 },
        Vec2I { x: 500, y: 0 },
        400,
        0,
    );
    assert_eq!(dir, Vec2I { x: 0, y: 1000 });
}

#[test]
fn full_accuracy_leads_a_moving_target() {
    let straight = aim_direction(
        Vec2I { x: 0, y: 0 },
        Vec2I { x: 0, y: 100_000 },
        Vec2I { x: 500, y: 0 },
        400,
        0,
    );
    let led = aim_direction(
        Vec2I { x: 0, y: 0 },
        Vec2I { x: 0, y: 100_000 },
        Vec2I { x: 500, y: 0 },
        400,
        1000,
    );
    assert_ne!(straight, led);
    assert!(led.x > 0, "the lead points toward the target's travel");
}

#[test]
fn lead_offset_grows_monotonically_with_accuracy() {
    // fixed target velocity and flight time: accuracy 0 to 1 scales the
    // lead offset monotonically
    let vel = Vec2I { x: 100, y: 0 };
    let mut last = -1i64;
    for acc in [0i64, 100, 300, 600, 1000] {
        let l = lead_offset(vel, 250, acc);
        let m = l.x * l.x + l.y * l.y;
        assert!(m >= last, "lead magnitude must not shrink");
        last = m;
    }
    assert_eq!(lead_offset(vel, 250, 0), Vec2I { x: 0, y: 0 });
    assert_eq!(lead_offset(vel, 250, 300), Vec2I { x: 7500, y: 0 });
    assert_eq!(lead_offset(vel, 250, 1000), Vec2I { x: 25_000, y: 0 });
}

#[test]
fn shooting_pass_emits_one_request_per_expired_cooldown() {
    let cfg = Config::standard();
    let mut tracker = PlayerTracker::new();
    tracker.update(Some(Vec2I { x: 0, y: -200_000 }), 16);
    let enemies = vec![
        Enemy::with_phase(EnemyBehavior::Sniper, Vec2I { x: 0, y: 200_000 }, 50, 0),
        Enemy::with_phase(EnemyBehavior::Linear, Vec2I { x: 50_000, y: 200_000 }, 80, 0),
    ];
    let mut weapons = vec![
        EnemyWeapon { fire_rate: 400, cooldown: 10, bullet_speed: 400, damage: 25_000 },
        EnemyWeapon { fire_rate: 800, cooldown: 900, bullet_speed: 280, damage: 12_000 },
    ];
    let requests = enemy_shooting(&enemies, &mut weapons, &tracker, 16, &cfg);
    assert_eq!(requests.len(), 1);
    assert_eq!(requests[0].origin, Vec2I { x: 0, y: 200_000 });
    assert_eq!(requests[0].damage, 25_000);
    assert_eq!(requests[0].bullet_speed, 400);
    // the sniper reset to its firing period; the other just ticked
    assert_eq!(weapons[0].cooldown, 2500);
    assert_eq!(weapons[1].cooldown, 884);
}

#[test]
fn inactive_actor_neither_ticks_nor_fires() {
    let cfg = Config::standard();
    let tracker = PlayerTracker::new();
    let mut e = Enemy::with_phase(EnemyBehavior::Linear, Vec2I { x: 0, y: 0 }, 80, 0);
    e.ai.active = false;
    let enemies = vec![e];
    let mut weapons = vec![EnemyWeapon {
        fire_rate: 800,
        cooldown: 5,
        bullet_speed: 280,
        damage: 12_000,
    }];
    let requests = enemy_shooting(&enemies, &mut weapons, &tracker, 16, &cfg);
    assert!(requests.is_empty());
    assert_eq!(weapons[0].cooldown, 5);
}

#[test]
fn spawned_weapons_stagger_their_first_shot() {
    // the random initial cooldown always lands in the promised window
    for _ in 0..50 {
        let w = EnemyWeapon::spawn(800, 280, 12_000);
        assert!((500..1500).contains(&w.cooldown));
        assert_eq!(w.fire_rate, 800);
    }
}

#[test]
fn spawned_actors_draw_a_phase_inside_one_turn() {
    let mut seen_nonzero = false;
    for _ in 0..100 {
        let e = Enemy::spawn(EnemyBehavior::Zigzag, Vec2I { x: 0, y: 0 }, 80);
        assert!((0..6284).contains(&e.ai.phase));
        if e.ai.phase != 0 {
            seen_nonzero = true;
        }
    }
    assert!(seen_nonzero, "the phase draw must actually vary");
}

#[test]
fn spawner_deploys_on_schedule_up_to_its_cap() {
    let mut s = EnemySpawner { spawn_rate: 4000, spawn_timer: 2000, max_spawned: 3, spawned_count: 0 };
    let mut deployed = 0u32;
    for _ in 0..2000 {
        if s.step(16) {
            deployed += 1;
        }
    }
    // 2000 frames of 16 ms is 32 s: enough for many periods, but the cap holds
    assert_eq!(deployed, 3);
    assert_eq!(s.spawned_count, 3);
    s.on_escort_lost();
    assert_eq!(s.spawned_count, 2);
    let mut more = false;
    for _ in 0..2000 {
        if s.step(16) {
            more = true;
        }
    }
    assert!(more, "a freed slot is refilled");
}
