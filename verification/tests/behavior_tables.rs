use combat_core::behavior::EnemyBehavior;
use combat_core::config::Config;

#[test]
fn dodge_sensitivity_table() {
    assert_eq!(EnemyBehavior::Linear.dodge_sensitivity(), 300);
    assert_eq!(EnemyBehavior::Zigzag.dodge_sensitivity(), 500);
    assert_eq!(EnemyBehavior::Homing.dodge_sensitivity(), 300);
    assert_eq!(EnemyBehavior::Orbital.dodge_sensitivity(), 500);
    assert_eq!(EnemyBehavior::Sniper.dodge_sensitivity(), 800);
    assert_eq!(EnemyBehavior::Kamikaze.dodge_sensitivity(), 0);
    assert_eq!(EnemyBehavior::Weaver.dodge_sensitivity(), 700);
    assert_eq!(EnemyBehavior::Spawner.dodge_sensitivity(), 200);
    assert_eq!(EnemyBehavior::Tank.dodge_sensitivity(), 100);
    assert_eq!(EnemyBehavior::Disintegrator.dodge_sensitivity(), 500);
}

#[test]
fn aim_accuracy_table() {
    assert_eq!(EnemyBehavior::Linear.aim_accuracy(), 200);
    assert_eq!(EnemyBehavior::Zigzag.aim_accuracy(), 400);
    assert_eq!(EnemyBehavior::Homing.aim_accuracy(), 500);
    assert_eq!(EnemyBehavior::Orbital.aim_accuracy(), 400);
    assert_eq!(EnemyBehavior::Sniper.aim_accuracy(), 900);
    assert_eq!(EnemyBehavior::Kamikaze.aim_accuracy(), 0);
    assert_eq!(EnemyBehavior::Weaver.aim_accuracy(), 300);
    assert_eq!(EnemyBehavior::Spawner.aim_accuracy(), 200);
    assert_eq!(EnemyBehavior::Tank.aim_accuracy(), 500);
    assert_eq!(EnemyBehavior::Disintegrator.aim_accuracy(), 600);
}

#[test]
fn spawner_and_tank_lead_squads() {
    assert!(EnemyBehavior::Spawner.is_leader());
    assert!(EnemyBehavior::Tank.is_leader());
    assert!(!EnemyBehavior::Linear.is_leader());
    assert!(!EnemyBehavior::Kamikaze.is_leader());
    assert!(!EnemyBehavior::Disintegrator.is_leader());
}

#[test]
fn standard_configuration_values() {
    let cfg = Config::standard();
    assert_eq!(cfg.dodge_detection_radius, 100_000);
    assert_eq!(cfg.dodge_strength, 150);
    assert_eq!(cfg.separation_radius, 55_000);
    assert_eq!(cfg.separation_strength, 80);
    assert_eq!(cfg.edge_avoidance_margin, 40_000);
    assert_eq!(cfg.edge_push_strength, 120);
    assert_eq!(cfg.max_dodge_impulse, 300);
    assert_eq!(cfg.leader_rally_radius, 150_000);
    assert_eq!(cfg.leader_cohesion_strength, 40);
    assert_eq!(cfg.escort_distance, 40_000);
    assert_eq!(cfg.beam_range, 350_000);
}
