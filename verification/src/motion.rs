//! Movement passes: Pursuit AI for enemies, the player's own
//! intent-driven movement, and the camera following its look-at target.

use vstd::prelude::*;
use crate::geom::{
    Vec2,
    in_bounds,
    dist_sq,
    fdist,
    step_toward,
    move_toward,
    clamped_vec,
    shift_clamped,
    lemma_sqrt_floor,
    lemma_step_toward_bounds,
};
use crate::timer::DT_LIMIT;
use crate::world::{World, Entity, EntityData, PlayerState, data_wf};

verus! {

/// Enemy pursuit speed, in milli-units per millisecond (50 units per
/// second).
pub const ENEMY_SPEED: u64 = 50;

/// Player movement speed, in milli-units per millisecond (200 units per
/// second).
pub const PLAYER_SPEED: u64 = 200;

/// What one entity becomes under a Pursuit AI tick: an enemy advances a
/// step of length `s` straight toward the player, capped at arrival; an
/// enemy already at the player's position stays put (no direction exists);
/// everything else is untouched.
pub open spec fn pursue_one(e: Entity, ppos: Vec2, s: int) -> Entity {
    match e.data {
        EntityData::Enemy { pos, health } => Entity {
            id: e.id,
            data: EntityData::Enemy { pos: step_toward(pos, ppos, s), health },
        },
        _ => e,
    }
}

/// Move every enemy toward the player by `50 units/s` times the elapsed
/// time. Without a player the pass is a no-op for the tick.
pub fn move_enemies(w: &mut World, dt_ms: u64)
    requires
        old(w).wf(),
        dt_ms <= DT_LIMIT,
    ensures
        final(w).wf(),
        final(w).player == old(w).player,
        final(w).camera == old(w).camera,
        final(w).aura_alpha_pm == old(w).aura_alpha_pm,
        final(w).next_id == old(w).next_id,
        old(w).player is None ==> final(w).ents@ == old(w).ents@,
        old(w).player matches Some(p) ==> {
            &&& final(w).ents@.len() == old(w).ents@.len()
            &&& forall|i: int|
                0 <= i < old(w).ents@.len() ==> #[trigger] final(w).ents@[i] == pursue_one(
                    old(w).ents@[i],
                    p.pos,
                    ENEMY_SPEED * dt_ms,
                )
        },
{
    let ppos = match &w.player {
        Some(p) => p.pos,
        None => {
            return ;
        },
    };
    let s: u64 = ENEMY_SPEED * dt_ms;
    let ghost s0 = w.ents@;
    let len = w.ents.len();
    let mut i: usize = 0;
    while i < len
        invariant
            i <= len,
            len == s0.len(),
            w.ents@.len() == s0.len(),
            old(w).player matches Some(p) && p.pos == ppos,
            in_bounds(ppos),
            s == ENEMY_SPEED * dt_ms,
            s <= 50_000_000,
            forall|j: int| i <= j < len ==> w.ents@[j] == s0[j],
            forall|j: int|
                0 <= j < i ==> #[trigger] w.ents@[j] == pursue_one(s0[j], ppos, s as int),
            forall|j: int| 0 <= j < i ==> data_wf(#[trigger] w.ents@[j].data),
            w.player == old(w).player,
            w.camera == old(w).camera,
            w.aura_alpha_pm == old(w).aura_alpha_pm,
            w.next_id == old(w).next_id,
            forall|j: int| 0 <= j < s0.len() ==> data_wf(#[trigger] s0[j].data),
        decreases len - i,
    {
        let e = w.ents[i];
        match e.data {
            EntityData::Enemy { pos, health } => {
                let q = move_toward(pos, ppos, s);
                w.ents.set(i, Entity { id: e.id, data: EntityData::Enemy { pos: q, health } });
            },
            _ => {},
        }
        i = i + 1;
    }
}

/// After one Pursuit AI step with the player stationary, an enemy whose
/// distance to the player exceeds the step `s` ends between `d - s` and
/// `d - s + 3` milli-units away: the distance shrinks by exactly the step,
/// up to a fixed-point rounding slack of three thousandths of a unit, and
/// the motion is along the straight line toward the player, as
/// `step_toward` states.
pub proof fn lemma_pursuit_approach(pos: Vec2, ppos: Vec2, s: int)
    requires
        0 < s < fdist(pos, ppos),
    ensures
        (fdist(pos, ppos) - s) * (fdist(pos, ppos) - s) <= dist_sq(
            step_toward(pos, ppos, s),
            ppos,
        ),
        dist_sq(step_toward(pos, ppos, s), ppos) <= (fdist(pos, ppos) - s + 3) * (fdist(
            pos,
            ppos,
        ) - s + 3),
{
    assert(dist_sq(pos, ppos) >= 0) by (nonlinear_arith);
    lemma_sqrt_floor(dist_sq(pos, ppos));
    lemma_step_toward_bounds(pos, ppos, s, fdist(pos, ppos));
}

/// Set the player's movement intent from this frame's input and advance the
/// player by `200 units/s` per axis of intent. Without a player the pass is
/// a no-op for the tick.
pub fn move_player(w: &mut World, intent_x: i64, intent_y: i64, dt_ms: u64)
    requires
        old(w).wf(),
        -1 <= intent_x <= 1,
        -1 <= intent_y <= 1,
        dt_ms <= DT_LIMIT,
    ensures
        final(w).wf(),
        final(w).ents@ == old(w).ents@,
        final(w).camera == old(w).camera,
        final(w).aura_alpha_pm == old(w).aura_alpha_pm,
        final(w).next_id == old(w).next_id,
        old(w).player is None ==> final(w).player is None,
        old(w).player matches Some(p) ==> final(w).player == Some(
            PlayerState {
                pos: clamped_vec(
                    p.pos.x + intent_x * PLAYER_SPEED * dt_ms,
                    p.pos.y + intent_y * PLAYER_SPEED * dt_ms,
                ),
                intent_x,
                intent_y,
                health: p.health,
            },
        ),
{
    let p = match &w.player {
        Some(p) => *p,
        None => {
            return ;
        },
    };
    let m: i64 = (PLAYER_SPEED * dt_ms) as i64;
    proof {
        assert(-200_000_000 <= intent_x * m <= 200_000_000) by (nonlinear_arith)
            requires
                -1 <= intent_x <= 1,
                0 <= m <= 200_000_000;
        assert(-200_000_000 <= intent_y * m <= 200_000_000) by (nonlinear_arith)
            requires
                -1 <= intent_y <= 1,
                0 <= m <= 200_000_000;
        assert(intent_x * m == intent_x * PLAYER_SPEED * dt_ms) by (nonlinear_arith)
            requires m == PLAYER_SPEED * dt_ms;
        assert(intent_y * m == intent_y * PLAYER_SPEED * dt_ms) by (nonlinear_arith)
            requires m == PLAYER_SPEED * dt_ms;
    }
    let dx: i64 = intent_x * m;
    let dy: i64 = intent_y * m;
    let q = shift_clamped(p.pos, dx, dy);
    w.player = Some(PlayerState { pos: q, intent_x, intent_y, health: p.health });
}

/// Point the camera at the look-at target, the player. If either singleton
/// is missing the pass is a no-op for the tick.
pub fn camera_look_at(w: &mut World)
    requires
        old(w).wf(),
    ensures
        final(w).wf(),
        final(w).ents@ == old(w).ents@,
        final(w).player == old(w).player,
        final(w).aura_alpha_pm == old(w).aura_alpha_pm,
        final(w).next_id == old(w).next_id,
        match (old(w).player, old(w).camera) {
            (Some(p), Some(_)) => final(w).camera == Some(p.pos),
            _ => final(w).camera == old(w).camera,
        },
{
    let p = match &w.player {
        Some(p) => *p,
        None => {
            return ;
        },
    };
    match &w.camera {
        Some(_) => {
            w.camera = Some(p.pos);
        },
        None => {},
    }
}

} // verus!
