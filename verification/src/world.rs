//! The shared world state: the growing and shrinking list of simulated
//! entities, the player, and the camera.
//!
//! Entities carry a stable numeric handle (`id`), handed out from a counter
//! that never repeats a value, so a handle never silently changes meaning.

use vstd::prelude::*;
use crate::geom::{Vec2, in_bounds};
use crate::timer::Timer;
use crate::seqtools::filter_map;

verus! {

/// Health magnitudes the world admits.
pub const HEALTH_LIMIT: i64 = 1_000_000_000_000;

/// Largest reward value an orb may carry.
pub const VALUE_LIMIT: i64 = 1_000_000;

/// Largest damage figure an indicator may display.
pub const DAMAGE_LIMIT: i64 = 1_000_000;

/// The attribute bundle of one non-player entity.
#[derive(Copy, Clone, PartialEq, Eq, Structural, Debug)]
pub enum EntityData {
    /// A pursuing enemy.
    Enemy { pos: Vec2, health: i64 },
    /// A dropped reward; `collecting` marks it as being pulled toward the
    /// player.
    XpOrb { pos: Vec2, value: i64, collecting: bool },
    /// Floating damage text with a one-shot lifetime and a displayed
    /// opacity in thousandths.
    DamageIndicator { pos: Vec2, damage: i64, timer: Timer, alpha_pm: u64 },
}

/// One entity: a stable handle and its attributes.
#[derive(Copy, Clone, PartialEq, Eq, Structural, Debug)]
pub struct Entity {
    pub id: u64,
    pub data: EntityData,
}

/// The player's own attributes: position, movement intent (one of -1, 0, 1
/// per axis), and health.
#[derive(Copy, Clone, PartialEq, Eq, Structural, Debug)]
pub struct PlayerState {
    pub pos: Vec2,
    pub intent_x: i64,
    pub intent_y: i64,
    pub health: i64,
}

/// The entity/component store all per-frame passes read and mutate. The
/// player and the camera are singletons; a pass that needs one and finds
/// `None` degrades to a no-op for that frame.
#[derive(Clone, Debug)]
pub struct World {
    pub next_id: u64,
    pub ents: Vec<Entity>,
    pub player: Option<PlayerState>,
    pub camera: Option<Vec2>,
    /// Visible opacity of the player's aura sprite, in thousandths.
    pub aura_alpha_pm: u64,
}

/// The position an entity's attributes place it at.
pub open spec fn pos_of(d: EntityData) -> Vec2 {
    match d {
        EntityData::Enemy { pos, .. } => pos,
        EntityData::XpOrb { pos, .. } => pos,
        EntityData::DamageIndicator { pos, .. } => pos,
    }
}

/// Well-formedness of one entity's attributes.
pub open spec fn data_wf(d: EntityData) -> bool {
    match d {
        EntityData::Enemy { pos, health } => in_bounds(pos) && -HEALTH_LIMIT <= health
            <= HEALTH_LIMIT,
        EntityData::XpOrb { pos, value, .. } => in_bounds(pos) && 0 <= value <= VALUE_LIMIT,
        EntityData::DamageIndicator { pos, damage, timer, alpha_pm } => in_bounds(pos) && 0
            <= damage <= DAMAGE_LIMIT && timer.wf() && !timer.repeating && alpha_pm <= 1000,
    }
}

/// Well-formedness of the player singleton.
pub open spec fn player_wf(p: PlayerState) -> bool {
    &&& in_bounds(p.pos)
    &&& -1 <= p.intent_x <= 1
    &&& -1 <= p.intent_y <= 1
    &&& -HEALTH_LIMIT <= p.health <= HEALTH_LIMIT
}

impl World {
    /// The world's invariant: every entity well formed, every handle below
    /// the counter and no handle repeated, singletons well formed.
    pub open spec fn wf(self) -> bool {
        &&& forall|i: int|
            0 <= i < self.ents@.len() ==> data_wf(#[trigger] self.ents@[i].data)
        &&& forall|i: int| 0 <= i < self.ents@.len() ==> (#[trigger] self.ents@[i].id)
            < self.next_id
        &&& forall|i: int, j: int|
            0 <= i < j < self.ents@.len() ==> #[trigger] self.ents@[i].id != #[trigger] self.ents@[j].id
        &&& match self.player {
            Some(p) => player_wf(p),
            None => true,
        }
        &&& match self.camera {
            Some(c) => in_bounds(c),
            None => true,
        }
        &&& self.aura_alpha_pm <= 1000
    }

    /// An empty world: no entities, no player, no camera.
    pub fn new() -> (w: World)
        ensures
            w.wf(),
            w.next_id == 0,
            w.ents@ == Seq::<Entity>::empty(),
            w.player is None,
            w.camera is None,
            w.aura_alpha_pm == 1000,
    {
        let w = World {
            next_id: 0,
            ents: Vec::new(),
            player: None,
            camera: None,
            aura_alpha_pm: 1000,
        };
        proof {
            assert(w.ents@ =~= Seq::<Entity>::empty());
        }
        w
    }

    /// How many entities the world holds.
    pub fn len(&self) -> (n: usize)
        ensures
            n == self.ents@.len(),
    {
        self.ents.len()
    }
}

/// Filtering the entity list through a handle-preserving map keeps the
/// handles distinct, and every surviving handle was already present.
pub proof fn lemma_filter_map_id_preserving(s: Seq<Entity>, f: spec_fn(Entity) -> Option<Entity>)
    requires
        forall|j: int|
            0 <= j < s.len() ==> match f(#[trigger] s[j]) {
                Some(e2) => e2.id == s[j].id,
                None => true,
            },
        forall|j: int, k: int| 0 <= j < k < s.len() ==> #[trigger] s[j].id != #[trigger] s[k].id,
    ensures
        forall|k: int|
            0 <= k < filter_map(s, f).len() ==> exists|j: int|
                0 <= j < s.len() && (#[trigger] filter_map(s, f)[k].id) == s[j].id,
        forall|k: int, l: int|
            0 <= k < l < filter_map(s, f).len() ==> #[trigger] filter_map(s, f)[k].id
                != #[trigger] filter_map(s, f)[l].id,
    decreases s.len(),
{
    if s.len() > 0 {
        let t = s.drop_last();
        lemma_filter_map_id_preserving(t, f);
        let ft = filter_map(t, f);
        let fs = filter_map(s, f);
        match f(s.last()) {
            Some(e2) => {
                assert(fs =~= ft.push(e2));
                assert(e2.id == s[s.len() - 1].id);
                assert forall|k: int| 0 <= k < fs.len() implies exists|j: int|
                    0 <= j < s.len() && (#[trigger] fs[k].id) == s[j].id by {
                    if k < ft.len() {
                        let j = choose|j: int| 0 <= j < t.len() && (ft[k].id) == t[j].id;
                        assert(0 <= j < s.len() && fs[k].id == s[j].id);
                    } else {
                        assert(fs[k].id == s[s.len() - 1].id);
                    }
                }
                assert forall|k: int, l: int| 0 <= k < l < fs.len() implies #[trigger] fs[k].id
                    != #[trigger] fs[l].id by {
                    if l == ft.len() {
                        let j = choose|j: int| 0 <= j < t.len() && (ft[k].id) == t[j].id;
                        assert(s[j].id != s[s.len() - 1].id);
                    }
                }
            },
            None => {
                assert(fs =~= ft);
                assert forall|k: int| 0 <= k < fs.len() implies exists|j: int|
                    0 <= j < s.len() && (#[trigger] fs[k].id) == s[j].id by {
                    let j = choose|j: int| 0 <= j < t.len() && (ft[k].id) == t[j].id;
                    assert(0 <= j < s.len() && fs[k].id == s[j].id);
                }
            },
        }
    }
}

} // verus!
