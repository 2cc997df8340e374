//! Startup and the frame scheduler: one call runs all per-frame passes in
//! the fixed order of the design — Mortality Sweep, Spawner, Pursuit AI,
//! player movement, Weapon Resolver, feedback updates, the reward state
//! machine, and the camera. Death clears stale entities before new work,
//! spawning precedes movement so new enemies take part in pursuit, and the
//! weapon runs after movement so positions are current.

use vstd::prelude::*;
use crate::geom::{Vec2, clamped_vec};
use crate::timer::{Timer, DT_LIMIT};
use crate::world::{World, Entity, PlayerState};
use crate::resources::{
    EnemySpawnConfig,
    WeaponConfig,
    SPAWN_INTERVAL_MS,
    WHIP_INTERVAL_MS,
    WHIP_MIN_DAMAGE,
    WHIP_MAX_DAMAGE,
};
use crate::sweep::{remove_dead, sweep_seq, dead_count};
use crate::spawn::{spawn_enemies, spawn_post, VIEW_LIMIT};
use crate::motion::{move_enemies, move_player, camera_look_at, pursue_one, ENEMY_SPEED,
    PLAYER_SPEED};
use crate::combat::{whip_enemies, whip_post};
use crate::feedback::{strobe_aura, animate_damage_indicators, aura_alpha, animate_one};
use crate::rewards::{mark_xp_orbs, collect_items, mark_one, collect_one};
use crate::seqtools::filter_map;

verus! {

/// Health the player starts with.
pub const PLAYER_START_HEALTH: i64 = 100;

/// Create the camera at the origin and the standard shared configuration,
/// as the startup pass does.
pub fn setup(w: &mut World) -> (cfgs: (EnemySpawnConfig, WeaponConfig))
    requires
        old(w).wf(),
    ensures
        final(w).wf(),
        final(w).camera == Some(Vec2 { x: 0, y: 0 }),
        final(w).ents@ == old(w).ents@,
        final(w).player == old(w).player,
        final(w).next_id == old(w).next_id,
        final(w).aura_alpha_pm == old(w).aura_alpha_pm,
        cfgs.0.wf(),
        cfgs.1.wf(),
        cfgs.0.timer == (Timer {
            duration_ms: SPAWN_INTERVAL_MS,
            elapsed_ms: 0,
            repeating: true,
            finished: false,
        }),
        cfgs.1.whip_timer == (Timer {
            duration_ms: WHIP_INTERVAL_MS,
            elapsed_ms: 0,
            repeating: true,
            finished: false,
        }),
        cfgs.1.whip_min_damage == WHIP_MIN_DAMAGE,
        cfgs.1.whip_max_damage == WHIP_MAX_DAMAGE,
{
    w.camera = Some(Vec2 { x: 0, y: 0 });
    (EnemySpawnConfig::standard(), WeaponConfig::standard())
}

/// Create the player singleton at the origin, at full health and with no
/// movement intent, with its aura fully visible.
pub fn spawn_player(w: &mut World)
    requires
        old(w).wf(),
    ensures
        final(w).wf(),
        final(w).player == Some(
            PlayerState {
                pos: Vec2 { x: 0, y: 0 },
                intent_x: 0,
                intent_y: 0,
                health: PLAYER_START_HEALTH,
            },
        ),
        final(w).ents@ == old(w).ents@,
        final(w).camera == old(w).camera,
        final(w).next_id == old(w).next_id,
        final(w).aura_alpha_pm == 1000,
{
    w.player = Some(
        PlayerState { pos: Vec2 { x: 0, y: 0 }, intent_x: 0, intent_y: 0, health: PLAYER_START_HEALTH },
    );
    w.aura_alpha_pm = 1000;
}

/// The Mortality Sweep's effect on the world.
pub open spec fn sweep_rel(a: World, b: World) -> bool {
    &&& b.ents@ == sweep_seq(a.ents@, a.next_id as int)
    &&& b.next_id == a.next_id + dead_count(a.ents@)
    &&& b.player == a.player
    &&& b.camera == a.camera
    &&& b.aura_alpha_pm == a.aura_alpha_pm
}

/// The Spawner's effect on the world and its configuration.
pub open spec fn spawn_rel(
    a: World,
    b: World,
    c0: EnemySpawnConfig,
    c1: EnemySpawnConfig,
    dt: int,
    vw: int,
    vh: int,
) -> bool {
    &&& c1 == (EnemySpawnConfig { timer: c0.timer.ticked(dt) })
    &&& b.player == a.player
    &&& b.camera == a.camera
    &&& b.aura_alpha_pm == a.aura_alpha_pm
    &&& (!c0.timer.fires(dt) || a.player is None ==> b.ents@ == a.ents@ && b.next_id == a.next_id)
    &&& (a.player matches Some(p) ==> (c0.timer.fires(dt) ==> spawn_post(
        a.ents@,
        b.ents@,
        p,
        vw,
        vh,
        a.next_id as int,
    ) && b.next_id == a.next_id + 1))
}

/// Pursuit AI's effect on the world.
pub open spec fn pursue_rel(a: World, b: World, dt: int) -> bool {
    &&& b.player == a.player
    &&& b.camera == a.camera
    &&& b.aura_alpha_pm == a.aura_alpha_pm
    &&& b.next_id == a.next_id
    &&& (a.player is None ==> b.ents@ == a.ents@)
    &&& (a.player matches Some(p) ==> b.ents@.len() == a.ents@.len() && forall|i: int|
        0 <= i < a.ents@.len() ==> #[trigger] b.ents@[i] == pursue_one(
            a.ents@[i],
            p.pos,
            ENEMY_SPEED * dt,
        ))
}

/// The player movement pass's effect on the world.
pub open spec fn player_rel(a: World, b: World, ix: int, iy: int, dt: int) -> bool {
    &&& b.ents@ == a.ents@
    &&& b.camera == a.camera
    &&& b.aura_alpha_pm == a.aura_alpha_pm
    &&& b.next_id == a.next_id
    &&& (a.player is None ==> b.player is None)
    &&& (a.player matches Some(p) ==> b.player == Some(
        PlayerState {
            pos: clamped_vec(p.pos.x + ix * PLAYER_SPEED * dt, p.pos.y + iy * PLAYER_SPEED * dt),
            intent_x: ix as i64,
            intent_y: iy as i64,
            health: p.health,
        },
    ))
}

/// The Weapon Resolver's effect on the world and its configuration.
pub open spec fn whip_rel(a: World, b: World, k0: WeaponConfig, k1: WeaponConfig, dt: int) -> bool {
    &&& k1 == (WeaponConfig { whip_timer: k0.whip_timer.ticked(dt), ..k0 })
    &&& b.player == a.player
    &&& b.camera == a.camera
    &&& b.aura_alpha_pm == a.aura_alpha_pm
    &&& (!k0.whip_timer.fires(dt) || a.player is None ==> b.ents@ == a.ents@ && b.next_id
        == a.next_id)
    &&& (a.player matches Some(p) ==> (k0.whip_timer.fires(dt) ==> whip_post(
        a.ents@,
        b.ents@,
        p.pos,
        a.next_id as int,
        b.next_id as int,
        k0.whip_min_damage as int,
        k0.whip_max_damage as int,
    )))
}

/// The aura pulse's effect on the world.
pub open spec fn aura_rel(a: World, b: World, k: WeaponConfig) -> bool {
    &&& b.ents@ == a.ents@
    &&& b.player == a.player
    &&& b.camera == a.camera
    &&& b.next_id == a.next_id
    &&& (a.player is None ==> b.aura_alpha_pm == a.aura_alpha_pm)
    &&& (a.player is Some ==> b.aura_alpha_pm == aura_alpha(k.whip_timer.percent_pm_spec()))
}

/// The indicator animation's effect on the world.
pub open spec fn animate_rel(a: World, b: World, dt: int) -> bool {
    &&& b.player == a.player
    &&& b.camera == a.camera
    &&& b.aura_alpha_pm == a.aura_alpha_pm
    &&& b.next_id == a.next_id
    &&& b.ents@ == filter_map(a.ents@, |e: Entity| animate_one(e, dt))
}

/// The reward tagging phase's effect on the world.
pub open spec fn mark_rel(a: World, b: World) -> bool {
    &&& b.player == a.player
    &&& b.camera == a.camera
    &&& b.aura_alpha_pm == a.aura_alpha_pm
    &&& b.next_id == a.next_id
    &&& (a.player is None ==> b.ents@ == a.ents@)
    &&& (a.player matches Some(p) ==> b.ents@.len() == a.ents@.len() && forall|i: int|
        0 <= i < a.ents@.len() ==> #[trigger] b.ents@[i] == mark_one(a.ents@[i], p.pos))
}

/// The reward migration phase's effect on the world.
pub open spec fn collect_rel(a: World, b: World, dt: int) -> bool {
    &&& b.player == a.player
    &&& b.camera == a.camera
    &&& b.aura_alpha_pm == a.aura_alpha_pm
    &&& b.next_id == a.next_id
    &&& (a.player is None ==> b.ents@ == a.ents@)
    &&& (a.player matches Some(p) ==> b.ents@ == filter_map(
        a.ents@,
        |e: Entity| collect_one(e, p.pos, dt),
    ))
}

/// The camera pass's effect on the world.
pub open spec fn camera_rel(a: World, b: World) -> bool {
    &&& b.ents@ == a.ents@
    &&& b.player == a.player
    &&& b.aura_alpha_pm == a.aura_alpha_pm
    &&& b.next_id == a.next_id
    &&& match (a.player, a.camera) {
        (Some(p), Some(_)) => b.camera == Some(p.pos),
        _ => b.camera == a.camera,
    }
}

/// Run one simulation frame: every pass once, in the fixed order, each
/// advanced by the same elapsed time. The contract chains every pass's
/// effect through the intermediate worlds the frame passes through.
pub fn run_frame(
    w: &mut World,
    spawn_cfg: &mut EnemySpawnConfig,
    weapon_cfg: &mut WeaponConfig,
    intent_x: i64,
    intent_y: i64,
    dt_ms: u64,
    view_w: i64,
    view_h: i64,
)
    requires
        old(w).wf(),
        old(spawn_cfg).wf(),
        old(weapon_cfg).wf(),
        -1 <= intent_x <= 1,
        -1 <= intent_y <= 1,
        dt_ms <= DT_LIMIT,
        0 < view_w <= VIEW_LIMIT,
        0 < view_h <= VIEW_LIMIT,
        old(w).next_id + 2 * old(w).ents@.len() + 2 <= u64::MAX,
    ensures
        final(w).wf(),
        final(spawn_cfg).wf(),
        final(weapon_cfg).wf(),
        exists|w1: World, w2: World, w3: World, w4: World, w5: World, w6: World, w7: World, w8: World, w9: World|
            #![trigger sweep_rel(*old(w), w1), pursue_rel(w2, w3, dt_ms as int), whip_rel(w4, w5, *old(weapon_cfg), *final(weapon_cfg), dt_ms as int), animate_rel(w6, w7, dt_ms as int), collect_rel(w8, w9, dt_ms as int)]
            {
                &&& sweep_rel(*old(w), w1)
                &&& spawn_rel(
                    w1,
                    w2,
                    *old(spawn_cfg),
                    *final(spawn_cfg),
                    dt_ms as int,
                    view_w as int,
                    view_h as int,
                )
                &&& pursue_rel(w2, w3, dt_ms as int)
                &&& player_rel(w3, w4, intent_x as int, intent_y as int, dt_ms as int)
                &&& whip_rel(w4, w5, *old(weapon_cfg), *final(weapon_cfg), dt_ms as int)
                &&& aura_rel(w5, w6, *final(weapon_cfg))
                &&& animate_rel(w6, w7, dt_ms as int)
                &&& mark_rel(w7, w8)
                &&& collect_rel(w8, w9, dt_ms as int)
                &&& camera_rel(w9, *final(w))
            },
{
    let ghost g0 = *w;
    remove_dead(w);
    let ghost g1 = *w;
    proof {
        crate::seqtools::lemma_count_bounds(g0.ents@, crate::sweep::dead_pred());
    }
    spawn_enemies(w, spawn_cfg, dt_ms, view_w, view_h);
    let ghost g2 = *w;
    move_enemies(w, dt_ms);
    let ghost g3 = *w;
    move_player(w, intent_x, intent_y, dt_ms);
    let ghost g4 = *w;
    whip_enemies(w, weapon_cfg, dt_ms);
    let ghost g5 = *w;
    strobe_aura(w, weapon_cfg);
    let ghost g6 = *w;
    animate_damage_indicators(w, dt_ms);
    let ghost g7 = *w;
    mark_xp_orbs(w);
    let ghost g8 = *w;
    collect_items(w, dt_ms);
    let ghost g9 = *w;
    camera_look_at(w);
    proof {
        assert(sweep_rel(g0, g1));
        assert(spawn_rel(
            g1,
            g2,
            *old(spawn_cfg),
            *spawn_cfg,
            dt_ms as int,
            view_w as int,
            view_h as int,
        ));
        assert(pursue_rel(g2, g3, dt_ms as int));
        assert(player_rel(g3, g4, intent_x as int, intent_y as int, dt_ms as int));
        assert(whip_rel(g4, g5, *old(weapon_cfg), *weapon_cfg, dt_ms as int));
        assert(aura_rel(g5, g6, *weapon_cfg));
        assert(animate_rel(g6, g7, dt_ms as int));
        assert(mark_rel(g7, g8));
        assert(collect_rel(g8, g9, dt_ms as int));
        assert(camera_rel(g9, *w));
    }
}

} // verus!
