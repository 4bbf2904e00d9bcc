use combat_core::actor::Enemy;
use combat_core::behavior::EnemyBehavior;
use combat_core::config::Config;
use combat_core::ramp::{
    DisintegratorRamp, blinding_vedmak_ramp, damavik_ramp, disintegrator_update, drekavac_ramp,
    starving_damavik_ramp, vedmak_ramp,
};
use combat_core::vec2::Vec2I;

#[test]
fn ramp_climbs_linearly_while_on_target() {
    let mut r = damavik_ramp();
    r.update(1000, true);
    assert_eq!(r.time_on_target, 1000);
    assert_eq!(r.current_mult, 1166);
    assert!(r.beam_active);
    assert_eq!(r.beam_intensity, 416);
}

#[test]
fn ramp_saturates_at_maximum() {
    let mut r = damavik_ramp();
    for _ in 0..10 {
        r.update(1000, true);
    }
    assert_eq!(r.time_on_target, 6000);
    assert_eq!(r.current_mult, 2000);
    assert_eq!(r.beam_intensity, 1000);
    assert_eq!(r.ramp_progress(), 1000);
}

#[test]
fn ramp_bounds_hold_every_frame() {
    // multiplier in [1, ramp_max] and on-target time in [0, ramp_time]
    // at every frame boundary, through an arbitrary on/off pattern
    let mut r = drekavac_ramp();
    for i in 0..500u32 {
        let hit = (i / 7) % 3 != 0;
        r.update(16, hit);
        assert!(r.current_mult >= 1000 && r.current_mult <= r.ramp_max);
        assert!(r.time_on_target >= 0 && r.time_on_target <= r.ramp_time);
    }
}

#[test]
fn leaving_range_for_one_frame_resets_instantly() {
    // a beam actor with multiplier above 1 drops back to exactly 1 the
    // moment the target leaves range, even for a single frame
    let mut r = vedmak_ramp();
    for _ in 0..200 {
        r.update(16, true);
    }
    assert!(r.current_mult > 1000);
    r.update(16, false);
    assert_eq!(r.current_mult, 1000);
    assert_eq!(r.time_on_target, 0);
    assert!(!r.beam_active);
    assert_eq!(r.beam_intensity, 0);
}

#[test]
fn current_damage_scales_with_multiplier() {
    let mut r = damavik_ramp();
    assert_eq!(r.current_damage(), 5000);
    for _ in 0..10 {
        r.update(1000, true);
    }
    assert_eq!(r.current_damage(), 10_000);
    assert_eq!(r.frame_damage(16), 160);
}

#[test]
fn beam_variant_parameters() {
    assert_eq!(damavik_ramp().base_damage, 5000);
    assert_eq!(starving_damavik_ramp().ramp_max, 1800);
    assert_eq!(starving_damavik_ramp().ramp_time, 4000);
    assert_eq!(vedmak_ramp().base_damage, 9000);
    assert_eq!(blinding_vedmak_ramp().base_damage, 7000);
    let boss = drekavac_ramp();
    assert_eq!((boss.base_damage, boss.ramp_max, boss.ramp_time), (14_000, 2500, 10_000));
}

#[test]
fn beam_pass_hits_only_in_range() {
    let cfg = Config::standard();
    let near = Enemy::with_phase(EnemyBehavior::Disintegrator, Vec2I { x: 0, y: 200_000 }, 60, 0);
    let far = Enemy::with_phase(EnemyBehavior::Disintegrator, Vec2I { x: 0, y: -400_000 }, 60, 0);
    let actors = vec![near, far];
    let mut ramps = vec![damavik_ramp(), damavik_ramp()];
    let player = Vec2I { x: 0, y: 0 };
    let hits = disintegrator_update(&actors, &mut ramps, player, false, 16, &cfg);
    // the near actor (200 < 350 units) ramps and fires; the far one does not
    assert_eq!(hits.len(), 1);
    assert_eq!(hits[0].source_position, Vec2I { x: 0, y: 200_000 });
    assert!(ramps[0].beam_active);
    assert!(!ramps[1].beam_active);
    assert_eq!(ramps[1].current_mult, 1000);
}

#[test]
fn beam_pass_respects_invulnerability() {
    let cfg = Config::standard();
    let actors = vec![Enemy::with_phase(
        EnemyBehavior::Disintegrator,
        Vec2I { x: 0, y: 100_000 },
        60,
        0,
    )];
    let mut ramps = vec![damavik_ramp()];
    let hits = disintegrator_update(&actors, &mut ramps, Vec2I { x: 0, y: 0 }, true, 16, &cfg);
    assert!(hits.is_empty());
    // the ramp still advances: invulnerability blocks damage, not tracking
    assert!(ramps[0].beam_active);
}

#[test]
fn beam_pass_resets_inactive_actors() {
    let cfg = Config::standard();
    let mut e = Enemy::with_phase(EnemyBehavior::Disintegrator, Vec2I { x: 0, y: 100_000 }, 60, 0);
    let mut ramps = vec![damavik_ramp()];
    let actors_active = vec![e];
    disintegrator_update(&actors_active, &mut ramps, Vec2I { x: 0, y: 0 }, false, 1000, &cfg);
    assert!(ramps[0].current_mult > 1000);
    e.ai.active = false;
    let actors_inactive = vec![e];
    let hits =
        disintegrator_update(&actors_inactive, &mut ramps, Vec2I { x: 0, y: 0 }, false, 16, &cfg);
    assert!(hits.is_empty());
    assert_eq!(ramps[0].current_mult, 1000);
}

#[test]
fn fresh_ramp_is_idle() {
    let r = DisintegratorRamp::new(8000, 3000, 5000);
    assert_eq!(r.time_on_target, 0);
    assert_eq!(r.current_mult, 1000);
    assert!(!r.beam_active);
    assert_eq!(r.ramp_progress(), 0);
}
