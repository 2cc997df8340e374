//! The reward state machine. Tagging phase: any untagged reward near the
//! player starts "collecting". Migration phase: every collecting reward
//! moves toward the player at a speed that grows with distance, and is
//! consumed on contact. The tag is one-way: nothing clears it short of the
//! reward's own consumption.

use vstd::prelude::*;
use crate::geom::{
    Vec2,
    in_bounds,
    dist_sq,
    fdist,
    step_toward,
    move_toward,
    dist,
    dist_sq_u64,
    lemma_fdist_bound,
    lemma_step_toward_bounds,
    STEP_LIMIT,
};
use crate::seqtools::{filter_map, lemma_filter_map_take_succ, lemma_take_all};
use crate::timer::DT_LIMIT;
use crate::world::{World, Entity, EntityData, data_wf, pos_of, lemma_filter_map_id_preserving};
use crate::sweep::sweep_one;
use crate::motion::pursue_one;

verus! {

/// Radius within which an untagged reward starts collecting, milli-units.
pub const COLLECT_RADIUS: i64 = 100_000;

/// Distance below which a migrating reward is consumed, milli-units.
pub const CONSUME_RADIUS: i64 = 10_000;

/// Whether an entity is a reward being pulled toward the player.
pub open spec fn is_collecting(e: Entity) -> bool {
    match e.data {
        EntityData::XpOrb { collecting, .. } => collecting,
        _ => false,
    }
}

/// What one entity becomes under the tagging phase: a reward within the
/// collect radius of the player is tagged as collecting; everything else,
/// and rewards out of range, are untouched.
pub open spec fn mark_one(e: Entity, ppos: Vec2) -> Entity {
    match e.data {
        EntityData::XpOrb { pos, value, collecting } => if dist_sq(pos, ppos) < COLLECT_RADIUS
            * COLLECT_RADIUS {
            Entity { id: e.id, data: EntityData::XpOrb { pos, value, collecting: true } }
        } else {
            e
        },
        _ => e,
    }
}

/// Tag every reward within the collect radius of the player. Without a
/// player the pass is a no-op for the tick.
pub fn mark_xp_orbs(w: &mut World)
    requires
        old(w).wf(),
    ensures
        final(w).wf(),
        final(w).player == old(w).player,
        final(w).camera == old(w).camera,
        final(w).aura_alpha_pm == old(w).aura_alpha_pm,
        final(w).next_id == old(w).next_id,
        old(w).player is None ==> final(w).ents@ == old(w).ents@,
        old(w).player matches Some(p) ==> {
            &&& final(w).ents@.len() == old(w).ents@.len()
            &&& forall|i: int|
                0 <= i < old(w).ents@.len() ==> #[trigger] final(w).ents@[i] == mark_one(
                    old(w).ents@[i],
                    p.pos,
                )
        },
{
    let ppos = match &w.player {
        Some(p) => p.pos,
        None => {
            return ;
        },
    };
    let ghost s0 = w.ents@;
    let len = w.ents.len();
    let mut i: usize = 0;
    while i < len
        invariant
            i <= len,
            len == s0.len(),
            w.ents@.len() == s0.len(),
            old(w).player matches Some(p) && p.pos == ppos,
            in_bounds(ppos),
            forall|j: int| i <= j < len ==> w.ents@[j] == s0[j],
            forall|j: int| 0 <= j < i ==> #[trigger] w.ents@[j] == mark_one(s0[j], ppos),
            forall|j: int| 0 <= j < i ==> data_wf(#[trigger] w.ents@[j].data),
            w.player == old(w).player,
            w.camera == old(w).camera,
            w.aura_alpha_pm == old(w).aura_alpha_pm,
            w.next_id == old(w).next_id,
            forall|j: int| 0 <= j < s0.len() ==> data_wf(#[trigger] s0[j].data),
        decreases len - i,
    {
        let e = w.ents[i];
        match e.data {
            EntityData::XpOrb { pos, value, collecting } => {
                let dsq = dist_sq_u64(pos, ppos);
                if dsq < (COLLECT_RADIUS * COLLECT_RADIUS) as u64 {
                    w.ents.set(
                        i,
                        Entity { id: e.id, data: EntityData::XpOrb { pos, value, collecting: true } },
                    );
                }
            },
            _ => {},
        }
        i = i + 1;
    }
}

/// The migration step length, in milli-units, for a collecting reward at
/// floor distance `d` from the player over an elapsed time `dt`: speed
/// scales with the remaining distance and never drops below the player's
/// own pace of 200 units per second.
pub open spec fn collect_step(d: int, dt: int) -> int {
    200 * (if d / 10 > 1000 {
        d / 10
    } else {
        1000
    }) * dt / 1000
}

/// What one entity becomes under the migration phase: a collecting reward
/// advances toward the player and is consumed (`None`) once within the
/// consume radius; everything else is untouched.
pub open spec fn collect_one(e: Entity, ppos: Vec2, dt: int) -> Option<Entity> {
    match e.data {
        EntityData::XpOrb { pos, value, collecting } => if collecting {
            let q = step_toward(pos, ppos, collect_step(fdist(pos, ppos), dt));
            if dist_sq(q, ppos) < CONSUME_RADIUS * CONSUME_RADIUS {
                None
            } else {
                Some(Entity { id: e.id, data: EntityData::XpOrb { pos: q, value, collecting } })
            }
        } else {
            Some(e)
        },
        _ => Some(e),
    }
}

/// Move every collecting reward toward the player and consume those that
/// come within the consume radius. Without a player the pass is a no-op
/// for the tick.
pub fn collect_items(w: &mut World, dt_ms: u64)
    requires
        old(w).wf(),
        dt_ms <= DT_LIMIT,
    ensures
        final(w).wf(),
        final(w).player == old(w).player,
        final(w).camera == old(w).camera,
        final(w).aura_alpha_pm == old(w).aura_alpha_pm,
        final(w).next_id == old(w).next_id,
        old(w).player is None ==> final(w).ents@ == old(w).ents@,
        old(w).player matches Some(p) ==> final(w).ents@ == filter_map(
            old(w).ents@,
            |e: Entity| collect_one(e, p.pos, dt_ms as int),
        ),
{
    let ppos = match &w.player {
        Some(p) => p.pos,
        None => {
            return ;
        },
    };
    let ghost s0 = w.ents@;
    let ghost f = |e: Entity| collect_one(e, ppos, dt_ms as int);
    let len = w.ents.len();
    let mut out: Vec<Entity> = Vec::new();
    let mut i: usize = 0;
    proof {
        assert(out@ =~= filter_map(s0.take(0), f));
    }
    while i < len
        invariant
            i <= len,
            len == s0.len(),
            w.ents@ == s0,
            old(w).player matches Some(p) && p.pos == ppos,
            in_bounds(ppos),
            out@ == filter_map(s0.take(i as int), f),
            f == (|e: Entity| collect_one(e, ppos, dt_ms as int)),
            dt_ms <= DT_LIMIT,
            forall|k: int| 0 <= k < out@.len() ==> data_wf(#[trigger] out@[k].data),
            forall|j: int| 0 <= j < s0.len() ==> data_wf(#[trigger] s0[j].data),
        decreases len - i,
    {
        proof {
            lemma_filter_map_take_succ(s0, f, i as int);
        }
        let e = w.ents[i];
        match e.data {
            EntityData::XpOrb { pos, value, collecting } => {
                if collecting {
                    let d = dist(pos, ppos);
                    proof {
                        lemma_fdist_bound(pos, ppos);
                        assert(200 * (if d as int / 10 > 1000 {
                            d as int / 10
                        } else {
                            1000int
                        }) * dt_ms <= 58_000_000_000_000_000) by (nonlinear_arith)
                            requires
                                0 <= d <= 2_900_000_000,
                                0 <= dt_ms <= 1_000_000;
                    }
                    let base: u64 = if d / 10 > 1000 {
                        d / 10
                    } else {
                        1000
                    };
                    let s: u64 = 200 * base * dt_ms / 1000;
                    proof {
                        assert(s == collect_step(d as int, dt_ms as int));
                        assert(s <= STEP_LIMIT);
                    }
                    let q = move_toward(pos, ppos, s);
                    let dsq = dist_sq_u64(q, ppos);
                    if dsq < (CONSUME_RADIUS * CONSUME_RADIUS) as u64 {
                        // consumed on contact
                    } else {
                        out.push(
                            Entity { id: e.id, data: EntityData::XpOrb { pos: q, value, collecting } },
                        );
                    }
                } else {
                    out.push(e);
                }
            },
            _ => {
                out.push(e);
            },
        }
        i = i + 1;
    }
    proof {
        lemma_take_all(s0);
        lemma_filter_map_id_preserving(s0, f);
        assert forall|k: int| 0 <= k < filter_map(s0, f).len() implies (#[trigger] filter_map(
            s0,
            f,
        )[k].id) < w.next_id by {
            let j = choose|j: int| 0 <= j < s0.len() && (filter_map(s0, f)[k].id) == s0[j].id;
        }
    }
    w.ents = out;
}

/// The collecting tag is one-way: no pass of the frame clears it. A tagged
/// reward stays tagged through the sweep, pursuit, tagging and migration
/// maps, or disappears entirely on consumption — no position change ever
/// untags it.
pub proof fn lemma_collecting_one_way(e: Entity, ppos: Vec2, dt: int, s: int, id: int)
    requires
        is_collecting(e),
    ensures
        sweep_one(e, id) == e,
        pursue_one(e, ppos, s) == e,
        is_collecting(mark_one(e, ppos)),
        collect_one(e, ppos, dt) matches Some(e2) ==> is_collecting(e2),
{
}

/// While the player stands still, a collecting reward that survives the
/// migration phase ends strictly closer to the player than it began;
/// rewards that would reach the player are consumed instead.
pub proof fn lemma_collect_approach(e: Entity, ppos: Vec2, dt: int)
    requires
        is_collecting(e),
        in_bounds(pos_of(e.data)),
        in_bounds(ppos),
        1 <= dt,
    ensures
        collect_one(e, ppos, dt) matches Some(e2) ==> dist_sq(pos_of(e2.data), ppos) < dist_sq(
            pos_of(e.data),
            ppos,
        ),
{
    let pos = pos_of(e.data);
    let d = fdist(pos, ppos);
    lemma_fdist_bound(pos, ppos);
    let s = collect_step(d, dt);
    let base = if d / 10 > 1000 {
        d / 10
    } else {
        1000int
    };
    assert(200 * base * dt >= 200_000) by (nonlinear_arith)
        requires
            base >= 1000,
            dt >= 1;
    assert(s >= 200) by (nonlinear_arith)
        requires
            s == 200 * base * dt / 1000,
            200 * base * dt >= 200_000;
    let q = step_toward(pos, ppos, s);
    if d <= s {
        assert(q == ppos);
        assert(dist_sq(q, ppos) == 0) by (nonlinear_arith)
            requires q == ppos, dist_sq(q, ppos) == (q.x - ppos.x) * (q.x - ppos.x) + (q.y
                - ppos.y) * (q.y - ppos.y);
        assert(collect_one(e, ppos, dt) is None);
    } else {
        lemma_step_toward_bounds(pos, ppos, s, d);
        assert(dist_sq(q, ppos) <= (d - s + 3) * (d - s + 3));
        assert((d - s + 3) * (d - s + 3) < d * d) by (nonlinear_arith)
            requires
                s >= 200,
                d > s;
        assert(d * d <= dist_sq(pos, ppos));
    }
}

} // verus!
