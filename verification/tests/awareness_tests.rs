use combat_core::actor::{Enemy, Projectile};
use combat_core::awareness::{
    cohesion_contribution, compute_impulse, dodge_contribution, edge_contribution,
    enemy_spatial_awareness, separation_contribution,
};
use combat_core::behavior::EnemyBehavior;
use combat_core::config::Config;
use combat_core::vec2::Vec2I;

fn actor(behavior: EnemyBehavior, x: i64, y: i64) -> Enemy {
    Enemy::with_phase(behavior, Vec2I { x, y }, 80, 0)
}

#[test]
fn closing_projectile_yields_perpendicular_dodge() {
    // an actor at the origin, detection radius 100 units, and a projectile
    // at (50, 0) travelling at (-80, 0): closing, so the same frame's
    // impulse has a nonzero perpendicular (y) component
    let cfg = Config::standard();
    let mut enemies = vec![actor(EnemyBehavior::Linear, 0, 0)];
    let projectiles = vec![Projectile {
        pos: Vec2I { x: 50_000, y: 0 },
        vel: Vec2I { x: -80, y: 0 },
    }];
    enemy_spatial_awareness(&mut enemies, &projectiles, &cfg);
    let imp = enemies[0].ai.dodge_impulse;
    assert_ne!(imp.y, 0);
    assert_eq!(imp, Vec2I { x: 0, y: -23 });
}

#[test]
fn receding_projectile_is_ignored() {
    let cfg = Config::standard();
    let p = Projectile { pos: Vec2I { x: 50_000, y: 0 }, vel: Vec2I { x: 80, y: 0 } };
    let c = dodge_contribution(Vec2I { x: 0, y: 0 }, p, 300, &cfg);
    assert_eq!(c, Vec2I { x: 0, y: 0 });
}

#[test]
fn projectile_beyond_detection_radius_is_ignored() {
    let cfg = Config::standard();
    let p = Projectile { pos: Vec2I { x: 150_000, y: 0 }, vel: Vec2I { x: -80, y: 0 } };
    let c = dodge_contribution(Vec2I { x: 0, y: 0 }, p, 300, &cfg);
    assert_eq!(c, Vec2I { x: 0, y: 0 });
}

#[test]
fn zero_sensitivity_actor_keeps_zero_impulse() {
    // a kamikaze (zero dodge sensitivity) surrounded by closing
    // projectiles, crowded by neighbours and near two squad leaders:
    // its combined steering impulse is the zero vector regardless
    let cfg = Config::standard();
    let mut enemies = vec![
        actor(EnemyBehavior::Kamikaze, 0, 0),
        actor(EnemyBehavior::Spawner, 100_000, 0),
        actor(EnemyBehavior::Tank, 0, 100_000),
        actor(EnemyBehavior::Linear, 10_000, 0),
    ];
    let projectiles = vec![
        Projectile { pos: Vec2I { x: 50_000, y: 0 }, vel: Vec2I { x: -80, y: 0 } },
        Projectile { pos: Vec2I { x: 0, y: -50_000 }, vel: Vec2I { x: 0, y: 90 } },
        Projectile { pos: Vec2I { x: -30_000, y: 0 }, vel: Vec2I { x: 120, y: 0 } },
    ];
    enemy_spatial_awareness(&mut enemies, &projectiles, &cfg);
    assert_eq!(enemies[0].ai.dodge_impulse, Vec2I { x: 0, y: 0 });
}

#[test]
fn escort_with_sensitivity_rallies_to_leader() {
    // a dodging escort within rally range of a spawner, beyond the
    // comfortable escort distance, is pulled toward it
    let cfg = Config::standard();
    let mut enemies = vec![
        actor(EnemyBehavior::Linear, 0, 0),
        actor(EnemyBehavior::Spawner, 100_000, 0),
    ];
    enemy_spatial_awareness(&mut enemies, &[].to_vec(), &cfg);
    assert_eq!(enemies[0].ai.dodge_impulse, Vec2I { x: 27, y: 0 });
}

#[test]
fn leaders_feel_no_cohesion_pull() {
    let cfg = Config::standard();
    let leaders = vec![Vec2I { x: 100_000, y: 0 }];
    let c = cohesion_contribution(Vec2I { x: 0, y: 0 }, true, &leaders, &cfg);
    assert_eq!(c, Vec2I { x: 0, y: 0 });
}

#[test]
fn escort_closer_than_comfort_distance_is_not_pulled() {
    let cfg = Config::standard();
    let leaders = vec![Vec2I { x: 30_000, y: 0 }];
    let c = cohesion_contribution(Vec2I { x: 0, y: 0 }, false, &leaders, &cfg);
    assert_eq!(c, Vec2I { x: 0, y: 0 });
}

#[test]
fn separation_pushes_directly_away() {
    let cfg = Config::standard();
    let c = separation_contribution(
        Vec2I { x: 0, y: 0 },
        Vec2I { x: 10_000, y: 0 },
        &cfg,
    );
    assert_eq!(c, Vec2I { x: -66, y: 0 });
    let c2 = separation_contribution(
        Vec2I { x: 10_000, y: 0 },
        Vec2I { x: 0, y: 0 },
        &cfg,
    );
    assert_eq!(c2, Vec2I { x: 66, y: 0 });
}

#[test]
fn separation_beyond_radius_is_zero() {
    let cfg = Config::standard();
    let c = separation_contribution(
        Vec2I { x: 0, y: 0 },
        Vec2I { x: 60_000, y: 0 },
        &cfg,
    );
    assert_eq!(c, Vec2I { x: 0, y: 0 });
}

#[test]
fn edge_margin_pushes_inward() {
    let cfg = Config::standard();
    // 30 units into the 40-unit left margin
    let c = edge_contribution(Vec2I { x: -370_000, y: 0 }, &cfg);
    assert_eq!(c, Vec2I { x: 30, y: 0 });
    // comfortably inside: no push
    let z = edge_contribution(Vec2I { x: 0, y: 0 }, &cfg);
    assert_eq!(z, Vec2I { x: 0, y: 0 });
    // near the top edge the push points down
    let t = edge_contribution(Vec2I { x: 0, y: 290_000 }, &cfg);
    assert!(t.y < 0);
}

#[test]
fn impulse_magnitude_never_exceeds_ceiling() {
    // a dense knot of actors and a hail of closing projectiles: every
    // combined impulse still fits the configured ceiling
    let cfg = Config::standard();
    let mut enemies: Vec<Enemy> = Vec::new();
    for i in 0..12i64 {
        enemies.push(actor(EnemyBehavior::Weaver, (i % 4) * 9_000, (i / 4) * 9_000));
    }
    let mut projectiles: Vec<Projectile> = Vec::new();
    for i in 0..10i64 {
        projectiles.push(Projectile {
            pos: Vec2I { x: i * 7_000, y: -40_000 },
            vel: Vec2I { x: 0, y: 300 },
        });
    }
    enemy_spatial_awareness(&mut enemies, &projectiles, &cfg);
    for e in &enemies {
        let m = e.ai.dodge_impulse.x * e.ai.dodge_impulse.x
            + e.ai.dodge_impulse.y * e.ai.dodge_impulse.y;
        assert!(m <= cfg.max_dodge_impulse * cfg.max_dodge_impulse);
    }
}

#[test]
fn inactive_actor_gets_zero_impulse() {
    let cfg = Config::standard();
    let mut e = actor(EnemyBehavior::Sniper, 0, 0);
    e.ai.active = false;
    let mut enemies = vec![e];
    let projectiles = vec![Projectile {
        pos: Vec2I { x: 50_000, y: 0 },
        vel: Vec2I { x: -80, y: 0 },
    }];
    enemy_spatial_awareness(&mut enemies, &projectiles, &cfg);
    assert_eq!(enemies[0].ai.dodge_impulse, Vec2I { x: 0, y: 0 });
}

#[test]
fn two_overlapping_actors_separate_until_past_the_radius() {
    // two actors spawned 10 units apart with zero base speed: frame after
    // frame their separation strictly increases until it exceeds the
    // separation radius — the away-from-zero force rounding never lets
    // the push stall inside the radius
    let cfg = Config::standard();
    let mut enemies = vec![
        Enemy::with_phase(EnemyBehavior::Linear, Vec2I { x: 0, y: 0 }, 0, 0),
        Enemy::with_phase(EnemyBehavior::Linear, Vec2I { x: 10_000, y: 0 }, 0, 0),
    ];
    let projectiles: Vec<Projectile> = Vec::new();
    let tracker = combat_core::tracker::PlayerTracker::new();
    let mut frames = 0usize;
    loop {
        let dx = enemies[0].pos.x - enemies[1].pos.x;
        let dy = enemies[0].pos.y - enemies[1].pos.y;
        let d_old = dx * dx + dy * dy;
        if d_old > cfg.separation_radius * cfg.separation_radius {
            break;
        }
        enemy_spatial_awareness(&mut enemies, &projectiles, &cfg);
        combat_core::locomotion::enemy_movement(&mut enemies, &tracker, 16, &cfg);
        let dx2 = enemies[0].pos.x - enemies[1].pos.x;
        let dy2 = enemies[0].pos.y - enemies[1].pos.y;
        let d_new = dx2 * dx2 + dy2 * dy2;
        assert!(d_new > d_old, "separation must strictly increase");
        frames += 1;
        assert!(frames < 10_000);
    }
    assert!(frames > 0, "the pair started inside the radius");
}

#[test]
fn compute_impulse_matches_pass() {
    let cfg = Config::standard();
    let enemies = vec![actor(EnemyBehavior::Linear, 0, 0)];
    let projectiles = vec![Projectile {
        pos: Vec2I { x: 50_000, y: 0 },
        vel: Vec2I { x: -80, y: 0 },
    }];
    let imp = compute_impulse(0, &enemies, &projectiles, &cfg);
    let mut moved = enemies.clone();
    enemy_spatial_awareness(&mut moved, &projectiles, &cfg);
    assert_eq!(imp, moved[0].ai.dodge_impulse);
}

#[test]
fn empty_frame_is_a_no_op() {
    let cfg = Config::standard();
    let mut enemies: Vec<Enemy> = Vec::new();
    let projectiles: Vec<Projectile> = Vec::new();
    enemy_spatial_awareness(&mut enemies, &projectiles, &cfg);
    assert!(enemies.is_empty());
    let tracker = combat_core::tracker::PlayerTracker::new();
    combat_core::locomotion::enemy_movement(&mut enemies, &tracker, 16, &cfg);
    combat_core::locomotion::enemy_bounds_check(&mut enemies, &cfg);
    assert!(enemies.is_empty());
}

#[test]
fn coincident_actors_have_no_defined_push_direction() {
    // two actors at exactly the same position: the separation direction is
    // undefined, so the push degenerates to zero rather than to an error
    let cfg = Config::standard();
    let c = separation_contribution(
        Vec2I { x: 5_000, y: 5_000 },
        Vec2I { x: 5_000, y: 5_000 },
        &cfg,
    );
    assert_eq!(c, Vec2I { x: 0, y: 0 });
}

#[test]
fn many_actors_in_one_cell_are_all_found() {
    let mut g = combat_core::grid::SpatialGrid::new();
    for i in 0..50u64 {
        g.insert_enemy(i, Vec2I { x: (i as i64) * 100, y: 0 });
    }
    let r = g.query(Vec2I { x: 0, y: 0 }, 10_000);
    assert_eq!(r.len(), 50);
}
