//! End-to-end scenarios over the simulation passes.

use survivors_core::combat::whip_enemies;
use survivors_core::feedback::animate_damage_indicators;
use survivors_core::frame::{run_frame, setup, spawn_player};
use survivors_core::geom::Vec2;
use survivors_core::motion::move_enemies;
use survivors_core::resources::{EnemySpawnConfig, WeaponConfig};
use survivors_core::rewards::{collect_items, mark_xp_orbs};
use survivors_core::spawn::spawn_enemies;
use survivors_core::sweep::remove_dead;
use survivors_core::timer::Timer;
use survivors_core::world::{Entity, EntityData, PlayerState, World};

fn world_with_player(pos: Vec2) -> World {
    let mut w = World::new();
    spawn_player(&mut w);
    if let Some(p) = &mut w.player {
        p.pos = pos;
    }
    w
}

fn push_enemy(w: &mut World, pos: Vec2, health: i64) {
    let e = Entity {
        id: w.next_id,
        data: EntityData::Enemy { pos, health },
    };
    w.ents.push(e);
    w.next_id += 1;
}

#[test]
fn spawn_interval_crossing_spawns_exactly_one_enemy() {
    // Interval 0.2 s, frame elapsed 0.25 s: one enemy, remainder 0.05 s.
    let mut w = world_with_player(Vec2 { x: 0, y: 0 });
    let mut cfg = EnemySpawnConfig {
        timer: Timer::new_repeating(200),
    };
    spawn_enemies(&mut w, &mut cfg, 250, 512_000, 512_000);
    assert_eq!(w.ents.len(), 1);
    assert!(cfg.timer.finished);
    assert_eq!(cfg.timer.elapsed_ms, 50);
    match &w.ents[0].data {
        EntityData::Enemy { pos, health } => {
            assert_eq!(*health, 10);
            // The new enemy stands on the viewport boundary centered on the
            // player, with the drawn coordinate inside the side's segment.
            let on_x_edge = (pos.x == -256_000 || pos.x == 256_000)
                && (-256_000..256_000).contains(&pos.y);
            let on_y_edge = (pos.y == -256_000 || pos.y == 256_000)
                && (-256_000..256_000).contains(&pos.x);
            assert!(on_x_edge || on_y_edge, "not on the boundary: {:?}", pos);
        }
        other => panic!("expected an enemy, got {:?}", other),
    }
}

#[test]
fn spawner_does_not_fire_before_the_interval() {
    let mut w = world_with_player(Vec2 { x: 0, y: 0 });
    let mut cfg = EnemySpawnConfig {
        timer: Timer::new_repeating(200),
    };
    spawn_enemies(&mut w, &mut cfg, 150, 512_000, 512_000);
    assert_eq!(w.ents.len(), 0);
    assert_eq!(cfg.timer.elapsed_ms, 150);
}

#[test]
fn whip_at_distance_zero_rolls_bounded_damage_and_full_knockback() {
    // min 4, max 8, one enemy exactly on the player: the rolled damage is
    // one of 4..=7 and the knockback magnitude is (200-0)/100*25 = 50
    // units (50_000 milli-units).
    let mut w = world_with_player(Vec2 { x: 0, y: 0 });
    push_enemy(&mut w, Vec2 { x: 0, y: 0 }, 10);
    let mut cfg = WeaponConfig {
        whip_timer: Timer::new_repeating(2000),
        whip_min_damage: 4,
        whip_max_damage: 8,
    };
    whip_enemies(&mut w, &mut cfg, 2000);
    assert_eq!(w.ents.len(), 2);
    match &w.ents[0].data {
        EntityData::Enemy { pos, health } => {
            let dmg = 10 - health;
            assert!((4..8).contains(&dmg), "damage {} out of range", dmg);
            assert_eq!(*pos, Vec2 { x: 50_000, y: 0 });
        }
        other => panic!("expected an enemy, got {:?}", other),
    }
    match &w.ents[1].data {
        EntityData::DamageIndicator {
            pos,
            damage,
            timer,
            alpha_pm,
        } => {
            assert_eq!(*pos, Vec2 { x: 0, y: 0 });
            assert!((4..8).contains(damage));
            assert_eq!(timer.duration_ms, 2000);
            assert!(!timer.repeating);
            assert_eq!(*alpha_pm, 1000);
        }
        other => panic!("expected an indicator, got {:?}", other),
    }
}

#[test]
fn whip_does_nothing_between_firings() {
    let mut w = world_with_player(Vec2 { x: 0, y: 0 });
    push_enemy(&mut w, Vec2 { x: 10_000, y: 0 }, 10);
    let before = w.ents.clone();
    let mut cfg = WeaponConfig {
        whip_timer: Timer::new_repeating(2000),
        whip_min_damage: 4,
        whip_max_damage: 8,
    };
    whip_enemies(&mut w, &mut cfg, 100);
    assert_eq!(w.ents, before);
    assert_eq!(cfg.whip_timer.elapsed_ms, 100);
}

#[test]
fn whip_misses_enemies_outside_the_radius() {
    let mut w = world_with_player(Vec2 { x: 0, y: 0 });
    push_enemy(&mut w, Vec2 { x: 150_000, y: 0 }, 10);
    let before = w.ents.clone();
    let mut cfg = WeaponConfig {
        whip_timer: Timer::new_repeating(2000),
        whip_min_damage: 4,
        whip_max_damage: 8,
    };
    whip_enemies(&mut w, &mut cfg, 2000);
    assert_eq!(w.ents, before);
}

#[test]
fn indicator_is_destroyed_after_its_lifetime_and_never_negative() {
    // A 2.0 s one-shot indicator, 2.1 s elapsed across two ticks: after the
    // first it is still shown with a nonnegative opacity, after the second
    // it is gone.
    let mut w = world_with_player(Vec2 { x: 0, y: 0 });
    let ind = Entity {
        id: w.next_id,
        data: EntityData::DamageIndicator {
            pos: Vec2 { x: 0, y: 0 },
            damage: 5,
            timer: Timer::new_once(2000),
            alpha_pm: 1000,
        },
    };
    w.ents.push(ind);
    w.next_id += 1;
    animate_damage_indicators(&mut w, 1050);
    assert_eq!(w.ents.len(), 1);
    match &w.ents[0].data {
        EntityData::DamageIndicator { timer, alpha_pm, pos, .. } => {
            assert_eq!(timer.elapsed_ms, 1050);
            // 1050/2000 of the way through: opacity 1000 - 525.
            assert_eq!(*alpha_pm, 475);
            // It drifted upward by 100 units/s for 1.05 s.
            assert_eq!(pos.y, 105_000);
        }
        other => panic!("expected an indicator, got {:?}", other),
    }
    animate_damage_indicators(&mut w, 1050);
    assert_eq!(w.ents.len(), 0);
}

#[test]
fn dead_enemy_becomes_exactly_one_orb_and_sweep_is_idempotent() {
    let mut w = world_with_player(Vec2 { x: 0, y: 0 });
    push_enemy(&mut w, Vec2 { x: 5_000, y: 6_000 }, 0);
    push_enemy(&mut w, Vec2 { x: 9_000, y: 0 }, 3);
    remove_dead(&mut w);
    assert_eq!(w.ents.len(), 2);
    match &w.ents[0].data {
        EntityData::XpOrb {
            pos,
            value,
            collecting,
        } => {
            assert_eq!(*pos, Vec2 { x: 5_000, y: 6_000 });
            assert_eq!(*value, 10);
            assert!(!collecting);
        }
        other => panic!("expected an orb, got {:?}", other),
    }
    match &w.ents[1].data {
        EntityData::Enemy { health, .. } => assert_eq!(*health, 3),
        other => panic!("expected the live enemy, got {:?}", other),
    }
    let snapshot = w.ents.clone();
    let next_id = w.next_id;
    remove_dead(&mut w);
    assert_eq!(w.ents, snapshot);
    assert_eq!(w.next_id, next_id);
}

#[test]
fn pursuit_closes_the_distance_by_the_speed_times_elapsed() {
    // Enemy 100 units east of a stationary player, one second: it moves 50
    // units straight west.
    let mut w = world_with_player(Vec2 { x: 0, y: 0 });
    push_enemy(&mut w, Vec2 { x: 100_000, y: 0 }, 10);
    move_enemies(&mut w, 1000);
    match &w.ents[0].data {
        EntityData::Enemy { pos, .. } => assert_eq!(*pos, Vec2 { x: 50_000, y: 0 }),
        other => panic!("expected an enemy, got {:?}", other),
    }
}

#[test]
fn pursuit_skips_an_enemy_standing_on_the_player() {
    let mut w = world_with_player(Vec2 { x: 4_000, y: -2_000 });
    push_enemy(&mut w, Vec2 { x: 4_000, y: -2_000 }, 10);
    move_enemies(&mut w, 1000);
    match &w.ents[0].data {
        EntityData::Enemy { pos, .. } => assert_eq!(*pos, Vec2 { x: 4_000, y: -2_000 }),
        other => panic!("expected an enemy, got {:?}", other),
    }
}

#[test]
fn collecting_tag_is_one_way_and_rewards_approach_strictly() {
    let mut w = world_with_player(Vec2 { x: 0, y: 0 });
    let orb = Entity {
        id: w.next_id,
        data: EntityData::XpOrb {
            pos: Vec2 { x: 50_000, y: 0 },
            value: 10,
            collecting: false,
        },
    };
    w.ents.push(orb);
    w.next_id += 1;
    mark_xp_orbs(&mut w);
    match &w.ents[0].data {
        EntityData::XpOrb { collecting, .. } => assert!(collecting),
        other => panic!("expected an orb, got {:?}", other),
    }
    // Move the orb far out of the collect radius: the tag stays set.
    if let EntityData::XpOrb { pos, .. } = &mut w.ents[0].data {
        *pos = Vec2 { x: 400_000, y: 0 };
    }
    mark_xp_orbs(&mut w);
    // First step, exactly: 400 units out, speed max(400/10, 1) * 200 =
    // 8000 units/s, so 128 units in a 16 ms tick.
    collect_items(&mut w, 16);
    match &w.ents[0].data {
        EntityData::XpOrb { pos, .. } => assert_eq!(*pos, Vec2 { x: 272_000, y: 0 }),
        other => panic!("expected an orb, got {:?}", other),
    }
    let mut last_distance = 272_000i64;
    for _ in 0..5 {
        collect_items(&mut w, 16);
        assert_eq!(w.ents.len(), 1);
        match &w.ents[0].data {
            EntityData::XpOrb { pos, collecting, .. } => {
                assert!(collecting);
                assert!(pos.x < last_distance, "{} not closer than {}", pos.x, last_distance);
                last_distance = pos.x;
            }
            other => panic!("expected an orb, got {:?}", other),
        }
    }
}

#[test]
fn reward_within_reach_is_consumed() {
    let mut w = world_with_player(Vec2 { x: 0, y: 0 });
    let orb = Entity {
        id: w.next_id,
        data: EntityData::XpOrb {
            pos: Vec2 { x: 5_000, y: 0 },
            value: 10,
            collecting: true,
        },
    };
    w.ents.push(orb);
    w.next_id += 1;
    collect_items(&mut w, 16);
    assert_eq!(w.ents.len(), 0);
}

#[test]
fn untagged_reward_outside_the_radius_is_left_alone() {
    let mut w = world_with_player(Vec2 { x: 0, y: 0 });
    let orb = Entity {
        id: w.next_id,
        data: EntityData::XpOrb {
            pos: Vec2 { x: 150_000, y: 0 },
            value: 10,
            collecting: false,
        },
    };
    w.ents.push(orb);
    w.next_id += 1;
    mark_xp_orbs(&mut w);
    collect_items(&mut w, 16);
    match &w.ents[0].data {
        EntityData::XpOrb { pos, collecting, .. } => {
            assert!(!collecting);
            assert_eq!(*pos, Vec2 { x: 150_000, y: 0 });
        }
        other => panic!("expected an orb, got {:?}", other),
    }
}

#[test]
fn passes_degrade_to_no_ops_without_a_player() {
    let mut w = World::new();
    push_enemy(&mut w, Vec2 { x: 10_000, y: 0 }, 10);
    let before = w.ents.clone();
    let mut scfg = EnemySpawnConfig {
        timer: Timer::new_repeating(200),
    };
    let mut wcfg = WeaponConfig {
        whip_timer: Timer::new_repeating(2000),
        whip_min_damage: 4,
        whip_max_damage: 8,
    };
    spawn_enemies(&mut w, &mut scfg, 500, 512_000, 512_000);
    move_enemies(&mut w, 500);
    whip_enemies(&mut w, &mut wcfg, 2500);
    mark_xp_orbs(&mut w);
    collect_items(&mut w, 500);
    assert_eq!(w.ents, before);
    // The shared timers still advanced.
    assert!(scfg.timer.finished);
    assert!(wcfg.whip_timer.finished);
}

#[test]
fn a_full_frame_runs_every_pass_in_order() {
    let mut w = World::new();
    let (mut scfg, mut wcfg) = setup(&mut w);
    spawn_player(&mut w);
    for _ in 0..50 {
        run_frame(&mut w, &mut scfg, &mut wcfg, 1, 0, 16, 512_000, 512_000);
    }
    // 50 frames at 16 ms = 800 ms: the 200 ms spawner fired four times.
    assert_eq!(w.ents.len(), 4);
    let p = w.player.as_ref().expect("player persists");
    // The player walked east at 200 units/s for 800 ms.
    assert_eq!(p.pos, Vec2 { x: 160_000, y: 0 });
    // The camera follows its look-at target.
    assert_eq!(w.camera, Some(p.pos));
}

#[test]
fn player_movement_follows_intent_and_sets_direction() {
    let mut w = world_with_player(Vec2 { x: 0, y: 0 });
    survivors_core::motion::move_player(&mut w, -1, 1, 500);
    let p = w.player.as_ref().unwrap();
    assert_eq!(p.pos, Vec2 { x: -100_000, y: 100_000 });
    assert_eq!((p.intent_x, p.intent_y), (-1, 1));
    let ps = PlayerState { ..*p };
    assert_eq!(ps.health, 100);
}

#[test]
fn a_killed_enemy_drops_a_reward_that_the_player_collects() {
    let mut w = World::new();
    let (mut scfg, mut wcfg) = setup(&mut w);
    spawn_player(&mut w);
    // One enemy a hundred units east, weak enough for a single whip hit.
    push_enemy(&mut w, Vec2 { x: 100_000, y: 0 }, 4);
    // Two seconds in one frame: the whip fires; pursuit first brings the
    // enemy all the way to the player, so the hit lands at distance zero
    // and the roll of at least 4 kills it. The spawner also fired once,
    // and the fresh indicator's own two-second countdown elapses within
    // the same long frame, so it is destroyed again immediately.
    run_frame(&mut w, &mut scfg, &mut wcfg, 0, 0, 2000, 512_000, 512_000);
    let kinds = |w: &World| {
        let mut enemies = 0;
        let mut orbs = 0;
        let mut indicators = 0;
        for e in &w.ents {
            match &e.data {
                EntityData::Enemy { .. } => enemies += 1,
                EntityData::XpOrb { .. } => orbs += 1,
                EntityData::DamageIndicator { .. } => indicators += 1,
            }
        }
        (enemies, orbs, indicators)
    };
    assert_eq!(kinds(&w), (2, 0, 0));
    // The next frame's sweep turns the dead enemy into an orb where the
    // knockback left it, fifty units out; the reward machine tags it and
    // pulls it in within the same frame, consuming it on contact.
    run_frame(&mut w, &mut scfg, &mut wcfg, 0, 0, 100, 512_000, 512_000);
    assert_eq!(kinds(&w), (1, 0, 0));
}
