//! The Mortality Sweep: every non-player entity whose health has reached
//! zero is removed from the world, and exactly one reward orb is created at
//! its last position. It runs before all other passes of a frame, so dead
//! entities never take part in later work of the same tick.

use vstd::prelude::*;
use crate::world::{World, Entity, EntityData, data_wf, pos_of};
use crate::seqtools::{
    count_where,
    lemma_count_take_succ,
    lemma_count_bounds,
    lemma_count_take_mono,
    lemma_count_zero,
    lemma_take_all,
};

verus! {

/// Reward value every dropped orb carries.
pub const ORB_VALUE: i64 = 10;

/// An entity the sweep removes: one with a health attribute at or below
/// zero. Only enemies carry health among non-player entities.
pub open spec fn is_dead(e: Entity) -> bool {
    match e.data {
        EntityData::Enemy { health, .. } => health <= 0,
        _ => false,
    }
}

/// `is_dead` as a closure, for counting.
pub open spec fn dead_pred() -> spec_fn(Entity) -> bool {
    |e: Entity| is_dead(e)
}

/// How many entities of `s` the sweep removes.
pub open spec fn dead_count(s: Seq<Entity>) -> int {
    count_where(s, dead_pred())
}

/// The reward orb dropped at a dead entity's last position, under a fresh
/// handle.
pub open spec fn orb_for(e: Entity, id: int) -> Entity {
    Entity {
        id: id as u64,
        data: EntityData::XpOrb { pos: pos_of(e.data), value: ORB_VALUE, collecting: false },
    }
}

/// What one entity becomes under the sweep: dead entities turn into the
/// dropped reward, everything else is untouched.
pub open spec fn sweep_one(e: Entity, id: int) -> Entity {
    if is_dead(e) {
        orb_for(e, id)
    } else {
        e
    }
}

/// The entity list after one sweep: each dead entity replaced in place by
/// its reward orb, with fresh handles numbered from `next` on in list order.
pub open spec fn sweep_seq(s: Seq<Entity>, next: int) -> Seq<Entity> {
    Seq::new(s.len(), |i: int| sweep_one(s[i], next + dead_count(s.take(i))))
}

/// Remove every dead entity and drop exactly one reward orb at its last
/// position. The player, the camera and the aura are untouched.
pub fn remove_dead(w: &mut World)
    requires
        old(w).wf(),
        old(w).next_id + old(w).ents@.len() <= u64::MAX,
    ensures
        final(w).wf(),
        final(w).ents@ == sweep_seq(old(w).ents@, old(w).next_id as int),
        final(w).next_id == old(w).next_id + dead_count(old(w).ents@),
        final(w).player == old(w).player,
        final(w).camera == old(w).camera,
        final(w).aura_alpha_pm == old(w).aura_alpha_pm,
{
    let ghost s0 = w.ents@;
    let ghost n0 = w.next_id as int;
    let len = w.ents.len();
    let mut i: usize = 0;
    while i < len
        invariant
            i <= len,
            len == s0.len(),
            w.ents@.len() == s0.len(),
            forall|j: int| i <= j < len ==> w.ents@[j] == s0[j],
            forall|j: int|
                0 <= j < i ==> w.ents@[j] == sweep_one(s0[j], n0 + dead_count(s0.take(j))),
            w.next_id == n0 + dead_count(s0.take(i as int)),
            n0 + s0.len() <= u64::MAX,
            w.player == old(w).player,
            w.camera == old(w).camera,
            w.aura_alpha_pm == old(w).aura_alpha_pm,
            forall|j: int| 0 <= j < s0.len() ==> data_wf(#[trigger] s0[j].data),
            forall|j: int| 0 <= j < s0.len() ==> (#[trigger] s0[j].id) < n0,
            forall|j: int, k: int|
                0 <= j < k < s0.len() ==> #[trigger] s0[j].id != #[trigger] s0[k].id,
        decreases len - i,
    {
        proof {
            lemma_count_bounds(s0.take(i as int), dead_pred());
            lemma_count_take_succ(s0, dead_pred(), i as int);
        }
        let e = w.ents[i];
        match e.data {
            EntityData::Enemy { pos, health } => {
                if health <= 0 {
                    let orb = Entity {
                        id: w.next_id,
                        data: EntityData::XpOrb { pos, value: ORB_VALUE, collecting: false },
                    };
                    w.ents.set(i, orb);
                    w.next_id = w.next_id + 1;
                }
            },
            _ => {},
        }
        i = i + 1;
    }
    proof {
        lemma_take_all(s0);
        let out = sweep_seq(s0, n0);
        assert(w.ents@ =~= out);
        lemma_sweep_seq_wf(s0, n0);
    }
}

/// The swept list is well formed whenever the input list was: every entity
/// well formed, every handle below the advanced counter, no handle repeated,
/// and nothing in it dead.
proof fn lemma_sweep_seq_wf(s: Seq<Entity>, next: int)
    requires
        forall|j: int| 0 <= j < s.len() ==> data_wf(#[trigger] s[j].data),
        forall|j: int| 0 <= j < s.len() ==> (#[trigger] s[j].id) < next,
        forall|j: int, k: int| 0 <= j < k < s.len() ==> #[trigger] s[j].id != #[trigger] s[k].id,
        next + s.len() <= u64::MAX,
        next >= 0,
    ensures
        forall|j: int| 0 <= j < s.len() ==> data_wf(#[trigger] sweep_seq(s, next)[j].data),
        forall|j: int|
            0 <= j < s.len() ==> (#[trigger] sweep_seq(s, next)[j].id) < next + dead_count(s),
        forall|j: int, k: int|
            0 <= j < k < s.len() ==> #[trigger] sweep_seq(s, next)[j].id != #[trigger] sweep_seq(
                s,
                next,
            )[k].id,
        forall|j: int| 0 <= j < s.len() ==> !is_dead(#[trigger] sweep_seq(s, next)[j]),
{
    let out = sweep_seq(s, next);
    lemma_take_all(s);
    assert forall|j: int| 0 <= j < s.len() implies data_wf(#[trigger] out[j].data) && out[j].id
        < next + dead_count(s) && !is_dead(out[j]) by {
        lemma_count_bounds(s.take(j), dead_pred());
        lemma_count_take_mono(s, dead_pred(), j, s.len() as int);
        if is_dead(s[j]) {
            assert(out[j] == orb_for(s[j], next + dead_count(s.take(j))));
        }
    }
    assert forall|j: int, k: int| 0 <= j < k < s.len() implies #[trigger] out[j].id
        != #[trigger] out[k].id by {
        lemma_count_bounds(s.take(j), dead_pred());
        lemma_count_bounds(s.take(k), dead_pred());
        lemma_count_take_mono(s, dead_pred(), j, k);
        lemma_count_take_mono(s, dead_pred(), k, s.len() as int);
    }
}

/// Running the sweep twice in a row with no intervening damage changes
/// nothing: the swept list holds no dead entity, so a second sweep maps it
/// to itself and drops no further reward.
pub proof fn lemma_sweep_idempotent(s: Seq<Entity>, next: int, next2: int)
    ensures
        dead_count(sweep_seq(s, next)) == 0,
        sweep_seq(sweep_seq(s, next), next2) == sweep_seq(s, next),
{
    let out = sweep_seq(s, next);
    assert forall|j: int| 0 <= j < out.len() implies !is_dead(#[trigger] out[j]) by {
        if is_dead(s[j]) {
            assert(out[j] == orb_for(s[j], next + dead_count(s.take(j))));
        }
    }
    lemma_count_zero(out, dead_pred());
    assert forall|j: int| 0 <= j < out.len() implies #[trigger] sweep_seq(out, next2)[j]
        == out[j] by {
        lemma_count_bounds(out.take(j), dead_pred());
        assert forall|k: int| 0 <= k < out.take(j).len() implies !dead_pred()(
            #[trigger] out.take(j)[k],
        ) by {}
        lemma_count_zero(out.take(j), dead_pred());
    }
    assert(sweep_seq(out, next2) =~= out);
}

} // verus!
