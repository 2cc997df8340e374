//! The Spawner: on each tick its repeating countdown advances by the
//! frame's elapsed time; when it comes due, exactly one new enemy appears
//! on the boundary of the viewport rectangle centered on the player. The
//! boundary side is drawn from weights biased by the player's movement
//! intent, and the position along the side is drawn uniformly.

use vstd::prelude::*;
use crate::geom::{Vec2, clamped_vec, clamp_point};
use crate::timer::DT_LIMIT;
use crate::world::{World, Entity, EntityData, PlayerState};
use crate::resources::EnemySpawnConfig;
use crate::rng::{gen_range_i64, sample_weighted4};

verus! {

/// Health every fresh enemy starts with.
pub const ENEMY_START_HEALTH: i64 = 10;

/// Largest viewport dimension the spawner accepts, milli-units.
pub const VIEW_LIMIT: i64 = 100_000_000;

/// The weight of one boundary side (0 top, 1 bottom, 2 left, 3 right)
/// given the player's movement intent. Base weight is one per side; the
/// first matching branch of the decision chain adds two to one side of the
/// matched axis and removes two from the other, clamped at zero — so a
/// diagonal intent only ever adjusts the horizontal pair.
pub open spec fn side_weight(side: int, ix: int, iy: int) -> int {
    if ix < 0 {
        if side == 2 {
            3
        } else if side == 3 {
            0
        } else {
            1
        }
    } else if ix > 0 {
        if side == 2 {
            0
        } else if side == 3 {
            3
        } else {
            1
        }
    } else if iy > 0 {
        if side == 0 {
            3
        } else if side == 1 {
            0
        } else {
            1
        }
    } else if iy < 0 {
        if side == 0 {
            0
        } else if side == 1 {
            3
        } else {
            1
        }
    } else {
        1
    }
}

/// The four side weights for a movement intent, as executable data: top,
/// bottom, left, right.
pub fn side_weights(ix: i64, iy: i64) -> (ws: (u32, u32, u32, u32))
    ensures
        ws.0 == side_weight(0, ix as int, iy as int),
        ws.1 == side_weight(1, ix as int, iy as int),
        ws.2 == side_weight(2, ix as int, iy as int),
        ws.3 == side_weight(3, ix as int, iy as int),
{
    if ix < 0 {
        (1, 1, 3, 0)
    } else if ix > 0 {
        (1, 1, 0, 3)
    } else if iy > 0 {
        (3, 0, 1, 1)
    } else if iy < 0 {
        (0, 3, 1, 1)
    } else {
        (1, 1, 1, 1)
    }
}

/// A point of the chosen boundary side of the viewport rectangle centered
/// on the player, clamped to the world's extent; `t` is the coordinate
/// drawn along the side.
pub open spec fn boundary_point(ppos: Vec2, vw: int, vh: int, side: int, t: int) -> Vec2 {
    let bx = ppos.x - vw / 2;
    let by = ppos.y - vh / 2;
    if side == 0 {
        clamped_vec(t, by + vh)
    } else if side == 1 {
        clamped_vec(t, by)
    } else if side == 2 {
        clamped_vec(bx, t)
    } else {
        clamped_vec(bx + vw, t)
    }
}

/// The coordinate drawn along a side lies on that side's segment.
pub open spec fn t_on_side(ppos: Vec2, vw: int, vh: int, side: int, t: int) -> bool {
    if side == 0 || side == 1 {
        ppos.x - vw / 2 <= t < ppos.x - vw / 2 + vw
    } else {
        ppos.y - vh / 2 <= t < ppos.y - vh / 2 + vh
    }
}

/// What one firing of the spawner does to the entity list: exactly one new
/// enemy, at full start health, under the next fresh handle, on some
/// boundary side of positive weight, at some drawn coordinate of that
/// side.
pub open spec fn spawn_post(
    s: Seq<Entity>,
    out: Seq<Entity>,
    p: PlayerState,
    vw: int,
    vh: int,
    n0: int,
) -> bool {
    exists|side: int, t: int|
        {
            &&& 0 <= side < 4
            &&& side_weight(side, p.intent_x as int, p.intent_y as int) > 0
            &&& t_on_side(p.pos, vw, vh, side, t)
            &&& out == s.push(
                Entity {
                    id: n0 as u64,
                    data: EntityData::Enemy {
                        pos: boundary_point(p.pos, vw, vh, side, t),
                        health: ENEMY_START_HEALTH,
                    },
                },
            )
        }
}

/// Advance the spawn countdown by the elapsed time and, when it comes due
/// and a player exists, create exactly one new enemy on the viewport
/// boundary. Without a player (or while the countdown runs) the world is
/// left as it is.
pub fn spawn_enemies(
    w: &mut World,
    cfg: &mut EnemySpawnConfig,
    dt_ms: u64,
    view_w: i64,
    view_h: i64,
)
    requires
        old(w).wf(),
        old(cfg).wf(),
        dt_ms <= DT_LIMIT,
        0 < view_w <= VIEW_LIMIT,
        0 < view_h <= VIEW_LIMIT,
        old(w).next_id < u64::MAX,
    ensures
        final(w).wf(),
        *final(cfg) == (EnemySpawnConfig { timer: old(cfg).timer.ticked(dt_ms as int) }),
        final(cfg).wf(),
        final(w).player == old(w).player,
        final(w).camera == old(w).camera,
        final(w).aura_alpha_pm == old(w).aura_alpha_pm,
        !old(cfg).timer.fires(dt_ms as int) || old(w).player is None ==> final(w).ents@ == old(
            w,
        ).ents@ && final(w).next_id == old(w).next_id,
        old(w).player matches Some(p) ==> (old(cfg).timer.fires(dt_ms as int) ==> spawn_post(
            old(w).ents@,
            final(w).ents@,
            p,
            view_w as int,
            view_h as int,
            old(w).next_id as int,
        ) && final(w).next_id == old(w).next_id + 1),
{
    cfg.timer.tick(dt_ms);
    if !cfg.timer.finished {
        return ;
    }
    let p = match &w.player {
        Some(p) => *p,
        None => {
            return ;
        },
    };
    let ws = side_weights(p.intent_x, p.intent_y);
    let side = sample_weighted4(ws.0, ws.1, ws.2, ws.3);
    let bx: i64 = p.pos.x - view_w / 2;
    let by: i64 = p.pos.y - view_h / 2;
    let pos: Vec2;
    let ghost t_chosen: int;
    if side == 0 {
        let t = gen_range_i64(bx, bx + view_w);
        pos = clamp_point(t, by + view_h);
        proof {
            t_chosen = t as int;
        }
    } else if side == 1 {
        let t = gen_range_i64(bx, bx + view_w);
        pos = clamp_point(t, by);
        proof {
            t_chosen = t as int;
        }
    } else if side == 2 {
        let t = gen_range_i64(by, by + view_h);
        pos = clamp_point(bx, t);
        proof {
            t_chosen = t as int;
        }
    } else {
        let t = gen_range_i64(by, by + view_h);
        pos = clamp_point(bx + view_w, t);
        proof {
            t_chosen = t as int;
        }
    }
    let enemy = Entity {
        id: w.next_id,
        data: EntityData::Enemy { pos, health: ENEMY_START_HEALTH },
    };
    w.ents.push(enemy);
    w.next_id = w.next_id + 1;
    proof {
        assert(pos == boundary_point(p.pos, view_w as int, view_h as int, side as int, t_chosen));
        assert(t_on_side(p.pos, view_w as int, view_h as int, side as int, t_chosen));
        assert(side_weight(side as int, p.intent_x as int, p.intent_y as int) > 0);
        assert(spawn_post(
            old(w).ents@,
            w.ents@,
            p,
            view_w as int,
            view_h as int,
            old(w).next_id as int,
        ));
    }
}

} // verus!
