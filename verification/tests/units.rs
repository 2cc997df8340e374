//! Unit tests of the timers, geometry and pure feedback formulas.

use survivors_core::feedback::{sin_wave, strobe_aura};
use survivors_core::geom::{dist, dist_sq_u64, isqrt, move_toward, Vec2};
use survivors_core::resources::WeaponConfig;
use survivors_core::spawn::side_weights;
use survivors_core::timer::Timer;
use survivors_core::world::World;
use survivors_core::frame::spawn_player;

#[test]
fn repeating_timer_carries_the_remainder_over() {
    let mut t = Timer::new_repeating(200);
    t.tick(250);
    assert!(t.finished);
    assert_eq!(t.elapsed_ms, 50);
    t.tick(100);
    assert!(!t.finished);
    assert_eq!(t.elapsed_ms, 150);
    t.tick(50);
    assert!(t.finished);
    assert_eq!(t.elapsed_ms, 0);
}

#[test]
fn one_shot_timer_stays_finished() {
    let mut t = Timer::new_once(2000);
    t.tick(1999);
    assert!(!t.finished);
    t.tick(1);
    assert!(t.finished);
    t.tick(500);
    assert!(t.finished);
    assert_eq!(t.elapsed_ms, 2000);
}

#[test]
fn timer_percent_counts_thousandths() {
    let mut t = Timer::new_repeating(2000);
    t.tick(500);
    assert_eq!(t.percent_pm(), 250);
    t.tick(1000);
    assert_eq!(t.percent_pm(), 750);
}

#[test]
fn integer_square_root_brackets_its_argument() {
    assert_eq!(isqrt(0), 0);
    assert_eq!(isqrt(1), 1);
    assert_eq!(isqrt(99), 9);
    assert_eq!(isqrt(100), 10);
    assert_eq!(isqrt(u64::MAX), 4_294_967_295);
}

#[test]
fn distances_are_measured_in_milli_units() {
    let a = Vec2 { x: 0, y: 0 };
    let b = Vec2 { x: 3_000, y: 4_000 };
    assert_eq!(dist_sq_u64(a, b), 25_000_000);
    assert_eq!(dist(a, b), 5_000);
}

#[test]
fn move_toward_caps_at_arrival() {
    let a = Vec2 { x: 0, y: 0 };
    let b = Vec2 { x: 3_000, y: 4_000 };
    assert_eq!(move_toward(a, b, 10_000), b);
    assert_eq!(move_toward(a, b, 2_500), Vec2 { x: 1_500, y: 2_000 });
    assert_eq!(move_toward(a, a, 1_000), a);
}

#[test]
fn side_weights_follow_the_intent_decision_chain() {
    // (top, bottom, left, right); base one each, the first matching branch
    // of the chain moves two.
    assert_eq!(side_weights(0, 0), (1, 1, 1, 1));
    assert_eq!(side_weights(-1, 0), (1, 1, 3, 0));
    assert_eq!(side_weights(1, 0), (1, 1, 0, 3));
    assert_eq!(side_weights(0, 1), (3, 0, 1, 1));
    assert_eq!(side_weights(0, -1), (0, 3, 1, 1));
    // A diagonal intent only adjusts the horizontal pair.
    assert_eq!(side_weights(-1, 1), (1, 1, 3, 0));
    assert_eq!(side_weights(1, -1), (1, 1, 0, 3));
}

#[test]
fn fixed_point_sine_hits_its_extremes_and_stays_bounded() {
    assert_eq!(sin_wave(0), 0);
    assert_eq!(sin_wave(1571), 1000);
    assert_eq!(sin_wave(3142 + 1571), -1000);
    for a in (0..10_000).step_by(37) {
        let r = sin_wave(a);
        assert!((-1000..=1000).contains(&r));
    }
}

#[test]
fn aura_opacity_pulses_with_the_whip_phase() {
    let mut w = World::new();
    spawn_player(&mut w);
    // Phase 0: brightest, opacity one half.
    let cfg = WeaponConfig {
        whip_timer: Timer::new_repeating(2000),
        whip_min_damage: 4,
        whip_max_damage: 8,
    };
    strobe_aura(&mut w, &cfg);
    assert_eq!(w.aura_alpha_pm, 500);
    // Mid-period: dimmest, floored at one tenth.
    let mut mid = cfg;
    mid.whip_timer.tick(1000);
    strobe_aura(&mut w, &mid);
    assert_eq!(w.aura_alpha_pm, 100);
    // Three quarters through: on the way back up.
    let mut late = cfg;
    late.whip_timer.tick(1500);
    strobe_aura(&mut w, &late);
    assert_eq!(w.aura_alpha_pm, 100);
    // Nine tenths through: 1000 - 2*(1000-900) = 800, minus 500.
    let mut edge = cfg;
    edge.whip_timer.tick(1800);
    strobe_aura(&mut w, &edge);
    assert_eq!(w.aura_alpha_pm, 300);
}

#[test]
fn world_positions_clamp_at_the_extent() {
    let near_edge = Vec2 {
        x: 999_999_000,
        y: 0,
    };
    let mut w = World::new();
    spawn_player(&mut w);
    if let Some(p) = &mut w.player {
        p.pos = near_edge;
    }
    // Walking east for five seconds would leave the world; the position
    // clamps at the edge instead.
    survivors_core::motion::move_player(&mut w, 1, 0, 5_000);
    assert_eq!(w.player.as_ref().unwrap().pos.x, 1_000_000_000);
}
