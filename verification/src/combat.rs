//! The Weapon Resolver. The whip has a repeating countdown; only on the
//! tick it elapses does it resolve. On resolution every enemy within the
//! whip radius of the player is knocked back — the closer, the farther —
//! loses a randomly rolled integer amount of health, and leaves a floating
//! damage indicator at its pre-knockback position.

use vstd::prelude::*;
use crate::geom::{
    Vec2,
    in_bounds,
    dist_sq,
    fdist,
    abs_i,
    clamped_vec,
    shift_clamped,
    dist,
    dist_sq_u64,
};
use crate::seqtools::{
    count_where,
    lemma_count_take_succ,
    lemma_count_bounds,
    lemma_count_take_mono,
    lemma_take_all,
};
use crate::timer::{Timer, DT_LIMIT};
use crate::world::{World, Entity, EntityData, data_wf, pos_of, HEALTH_LIMIT};
use crate::resources::WeaponConfig;
use crate::rng::gen_range_i64;

verus! {

/// Radius of the whip's area check, milli-units (150 world units).
pub const WHIP_RADIUS: i64 = 150_000;

/// Base of the knockback formula, milli-units (200 world units).
pub const KNOCKBACK_BASE: i64 = 200_000;

/// Lifetime of a damage indicator, milliseconds.
pub const INDICATOR_LIFETIME_MS: u64 = 2000;

/// Whether a position is within the whip's radius of the player.
pub open spec fn in_whip_range(pos: Vec2, ppos: Vec2) -> bool {
    dist_sq(pos, ppos) < WHIP_RADIUS * WHIP_RADIUS
}

/// Whether the resolution hits this entity: an enemy within the radius.
pub open spec fn is_hit(e: Entity, ppos: Vec2) -> bool {
    match e.data {
        EntityData::Enemy { pos, .. } => in_whip_range(pos, ppos),
        _ => false,
    }
}

/// `is_hit` as a closure, for counting.
pub open spec fn hit_pred(ppos: Vec2) -> spec_fn(Entity) -> bool {
    |e: Entity| is_hit(e, ppos)
}

/// How many entities of `s` one resolution hits.
pub open spec fn hit_count(s: Seq<Entity>, ppos: Vec2) -> int {
    count_where(s, hit_pred(ppos))
}

/// Knockback displacement magnitude at floor distance `d`, milli-units:
/// the fixed-point form of `(200 - d) / 100 * 25` world units — the closer
/// the enemy, the farther the push.
pub open spec fn knockback_mag(d: int) -> int {
    (KNOCKBACK_BASE - d) / 4
}

/// The knockback magnitude falls off monotonically: a greater
/// pre-resolution distance never yields a greater push.
pub proof fn lemma_knockback_falloff(d1: int, d2: int)
    requires
        0 <= d1 <= d2,
    ensures
        knockback_mag(d2) <= knockback_mag(d1),
{
    vstd::arithmetic::div_mod::lemma_div_is_ordered(
        KNOCKBACK_BASE - d2,
        KNOCKBACK_BASE - d1,
        4,
    );
}

/// One coordinate pushed away from a center `cx` by the truncated share
/// `|x - cx| * m / d` of the push.
pub open spec fn coord_push(x: int, cx: int, m: int, d: int) -> int {
    if x >= cx {
        x + (x - cx) * m / d
    } else {
        x - (cx - x) * m / d
    }
}

/// Where a hit enemy lands: pushed away from the player along the line
/// from the player through the enemy, clamped at the world's edge. At
/// distance zero no direction exists; the push keeps its full magnitude
/// and goes along the positive x axis.
pub open spec fn knockback_pos(pos: Vec2, ppos: Vec2) -> Vec2 {
    let d = fdist(pos, ppos);
    let m = knockback_mag(d);
    if d == 0 {
        clamped_vec(pos.x + m, pos.y as int)
    } else {
        clamped_vec(
            coord_push(pos.x as int, ppos.x as int, m, d),
            coord_push(pos.y as int, ppos.y as int, m, d),
        )
    }
}

/// Health after taking `dmg` damage, floored at the world's health limit.
pub open spec fn sub_health(health: int, dmg: int) -> int {
    if health - dmg < -HEALTH_LIMIT {
        -HEALTH_LIMIT as int
    } else {
        health - dmg
    }
}

/// A hit enemy's record after resolution: knocked back and damaged.
pub open spec fn smitten(e: Entity, ppos: Vec2, dmg: int) -> Entity {
    match e.data {
        EntityData::Enemy { pos, health } => Entity {
            id: e.id,
            data: EntityData::Enemy {
                pos: knockback_pos(pos, ppos),
                health: sub_health(health as int, dmg) as i64,
            },
        },
        _ => e,
    }
}

/// The fresh damage indicator a hit leaves behind: at the enemy's
/// pre-knockback position, showing the rolled damage, fully opaque, with a
/// two-second one-shot countdown.
pub open spec fn indicator_for(e: Entity, id: int, dmg: int) -> Entity {
    Entity {
        id: id as u64,
        data: EntityData::DamageIndicator {
            pos: pos_of(e.data),
            damage: dmg as i64,
            timer: Timer {
                duration_ms: INDICATOR_LIFETIME_MS,
                elapsed_ms: 0,
                repeating: false,
                finished: false,
            },
            alpha_pm: 1000,
        },
    }
}

/// What one resolution does to the entity list: every entity the whip
/// misses is untouched in place; every hit enemy is knocked back and loses
/// a rolled integer amount of health in `[lo, hi)`; and one fresh
/// indicator per hit is appended, in hit order, under consecutive fresh
/// handles.
pub open spec fn whip_post(
    s: Seq<Entity>,
    out: Seq<Entity>,
    ppos: Vec2,
    n0: int,
    n1: int,
    lo: int,
    hi: int,
) -> bool {
    &&& out.len() == s.len() + hit_count(s, ppos)
    &&& n1 == n0 + hit_count(s, ppos)
    &&& forall|i: int| 0 <= i < s.len() && !is_hit(#[trigger] s[i], ppos) ==> out[i] == s[i]
    &&& forall|i: int|
        0 <= i < s.len() && is_hit(#[trigger] s[i], ppos) ==> exists|dmg: int|
            {
                &&& lo <= dmg < hi
                &&& out[i] == smitten(s[i], ppos, dmg)
                &&& out[s.len() + hit_count(s.take(i), ppos)] == indicator_for(
                    s[i],
                    n0 + hit_count(s.take(i), ppos),
                    dmg,
                )
            }
}

/// Knockback of an in-range enemy position away from the player.
fn push_away(pos: Vec2, ppos: Vec2) -> (q: Vec2)
    requires
        in_bounds(pos),
        in_bounds(ppos),
        in_whip_range(pos, ppos),
    ensures
        q == knockback_pos(pos, ppos),
        in_bounds(q),
{
    let d = dist(pos, ppos);
    proof {
        assert(d < 150_000) by (nonlinear_arith)
            requires
                (d as int) * (d as int) <= dist_sq(pos, ppos),
                dist_sq(pos, ppos) < 150_000 * 150_000,
                d >= 0;
    }
    let m: i64 = (KNOCKBACK_BASE - (d as i64)) / 4;
    if d == 0 {
        shift_clamped(pos, m, 0)
    } else {
        let adx: u64 = (if pos.x >= ppos.x {
            pos.x - ppos.x
        } else {
            ppos.x - pos.x
        }) as u64;
        let ady: u64 = (if pos.y >= ppos.y {
            pos.y - ppos.y
        } else {
            ppos.y - pos.y
        }) as u64;
        proof {
            assert((adx as int) * (adx as int) + (ady as int) * (ady as int) == dist_sq(pos, ppos))
                by (nonlinear_arith)
                requires
                    adx as int == abs_i(pos.x - ppos.x),
                    ady as int == abs_i(pos.y - ppos.y),
                    dist_sq(pos, ppos) == (pos.x - ppos.x) * (pos.x - ppos.x) + (pos.y - ppos.y)
                        * (pos.y - ppos.y);
            assert(adx as int <= d as int && ady as int <= d as int) by (nonlinear_arith)
                requires
                    adx >= 0,
                    ady >= 0,
                    (adx as int) * (adx as int) + (ady as int) * (ady as int) < (d as int + 1) * (
                    d as int + 1),
                    d >= 0;
            assert(adx * (m as u64) <= 150_000 * 50_000 * 2) by (nonlinear_arith)
                requires
                    adx <= 150_000,
                    0 <= m <= 50_000;
            assert(ady * (m as u64) <= 150_000 * 50_000 * 2) by (nonlinear_arith)
                requires
                    ady <= 150_000,
                    0 <= m <= 50_000;
        }
        let ux: u64 = adx * (m as u64) / d;
        let uy: u64 = ady * (m as u64) / d;
        proof {
            let a = adx as int;
            let b = ady as int;
            let mm = m as int;
            let dd = d as int;
            assert(a * mm <= dd * mm && b * mm <= dd * mm) by (nonlinear_arith)
                requires
                    a <= dd,
                    b <= dd,
                    mm >= 0;
            vstd::arithmetic::div_mod::lemma_div_is_ordered(a * mm, dd * mm, dd);
            vstd::arithmetic::div_mod::lemma_div_is_ordered(b * mm, dd * mm, dd);
            vstd::arithmetic::div_mod::lemma_div_multiples_vanish(mm, dd);
            assert(ux <= m && uy <= m);
        }
        let sx: i64 = if pos.x >= ppos.x {
            ux as i64
        } else {
            -(ux as i64)
        };
        let sy: i64 = if pos.y >= ppos.y {
            uy as i64
        } else {
            -(uy as i64)
        };
        let q = shift_clamped(pos, sx, sy);
        proof {
            assert(coord_push(pos.x as int, ppos.x as int, m as int, d as int) == pos.x + sx);
            assert(coord_push(pos.y as int, ppos.y as int, m as int, d as int) == pos.y + sy);
        }
        q
    }
}

/// Resolve the whip for one frame: advance its countdown by the elapsed
/// time, and only if it comes due — and a player exists — damage and knock
/// back every enemy in range and append one damage indicator per hit.
/// Between firings the pass changes no enemy health or position.
#[verifier::rlimit(100)]
pub fn whip_enemies(w: &mut World, cfg: &mut WeaponConfig, dt_ms: u64)
    requires
        old(w).wf(),
        old(cfg).wf(),
        dt_ms <= DT_LIMIT,
        old(w).next_id + old(w).ents@.len() <= u64::MAX,
    ensures
        final(w).wf(),
        *final(cfg) == (WeaponConfig {
            whip_timer: old(cfg).whip_timer.ticked(dt_ms as int),
            ..*old(cfg)
        }),
        final(cfg).wf(),
        final(w).player == old(w).player,
        final(w).camera == old(w).camera,
        final(w).aura_alpha_pm == old(w).aura_alpha_pm,
        !old(cfg).whip_timer.fires(dt_ms as int) || old(w).player is None ==> final(w).ents@ == old(
            w,
        ).ents@ && final(w).next_id == old(w).next_id,
        old(w).player matches Some(p) ==> (old(cfg).whip_timer.fires(dt_ms as int) ==> whip_post(
            old(w).ents@,
            final(w).ents@,
            p.pos,
            old(w).next_id as int,
            final(w).next_id as int,
            old(cfg).whip_min_damage as int,
            old(cfg).whip_max_damage as int,
        )),
{
    cfg.whip_timer.tick(dt_ms);
    if !cfg.whip_timer.finished {
        return ;
    }
    let ppos = match &w.player {
        Some(p) => p.pos,
        None => {
            return ;
        },
    };
    let lo = cfg.whip_min_damage;
    let hi = cfg.whip_max_damage;
    let ghost s0 = w.ents@;
    let ghost n0 = w.next_id as int;
    let ghost hp = hit_pred(ppos);
    let len = w.ents.len();
    let mut i: usize = 0;
    proof {
        assert(s0.take(0) =~= Seq::<Entity>::empty());
    }
    while i < len
        invariant
            i <= len,
            len == s0.len(),
            old(w).player matches Some(p) && p.pos == ppos,
            in_bounds(ppos),
            lo == old(cfg).whip_min_damage,
            hi == old(cfg).whip_max_damage,
            0 < lo < hi <= crate::world::DAMAGE_LIMIT,
            hp == hit_pred(ppos),
            n0 + s0.len() <= u64::MAX,
            w.ents@.len() == s0.len() + count_where(s0.take(i as int), hp),
            w.next_id == n0 + count_where(s0.take(i as int), hp),
            forall|j: int| i <= j < len ==> #[trigger] w.ents@[j] == s0[j],
            forall|j: int| 0 <= j < i && !is_hit(#[trigger] s0[j], ppos) ==> w.ents@[j] == s0[j],
            forall|j: int|
                0 <= j < i && is_hit(#[trigger] s0[j], ppos) ==> exists|dmg: int|
                    {
                        &&& lo <= dmg < hi
                        &&& w.ents@[j] == smitten(s0[j], ppos, dmg)
                        &&& w.ents@[s0.len() + hit_count(s0.take(j), ppos)] == indicator_for(
                            s0[j],
                            n0 + hit_count(s0.take(j), ppos),
                            dmg,
                        )
                    },
            forall|j: int| 0 <= j < i ==> data_wf(#[trigger] w.ents@[j].data),
            forall|j: int| 0 <= j < len ==> #[trigger] w.ents@[j].id == s0[j].id,
            forall|k: int|
                s0.len() <= k < w.ents@.len() ==> data_wf(#[trigger] w.ents@[k].data)
                    && w.ents@[k].id == n0 + (k - s0.len()),
            w.player == old(w).player,
            w.camera == old(w).camera,
            w.aura_alpha_pm == old(w).aura_alpha_pm,
            w.next_id <= u64::MAX,
            forall|j: int| 0 <= j < s0.len() ==> data_wf(#[trigger] s0[j].data),
            forall|j: int| 0 <= j < s0.len() ==> (#[trigger] s0[j].id) < n0,
            forall|j: int, k: int|
                0 <= j < k < s0.len() ==> #[trigger] s0[j].id != #[trigger] s0[k].id,
        decreases len - i,
    {
        proof {
            lemma_count_bounds(s0.take(i as int), hp);
            lemma_count_take_succ(s0, hp, i as int);
        }
        let ghost ents_in = w.ents@;
        let e = w.ents[i];
        match e.data {
            EntityData::Enemy { pos, health } => {
                let dsq = dist_sq_u64(pos, ppos);
                if dsq < (WHIP_RADIUS * WHIP_RADIUS) as u64 {
                    let q = push_away(pos, ppos);
                    let dmg = gen_range_i64(lo, hi);
                    let nh: i64 = if health - dmg < -HEALTH_LIMIT {
                        -HEALTH_LIMIT
                    } else {
                        health - dmg
                    };
                    w.ents.set(i, Entity { id: e.id, data: EntityData::Enemy { pos: q, health: nh } });
                    let ind = Entity {
                        id: w.next_id,
                        data: EntityData::DamageIndicator {
                            pos,
                            damage: dmg,
                            timer: Timer::new_once(INDICATOR_LIFETIME_MS),
                            alpha_pm: 1000,
                        },
                    };
                    w.ents.push(ind);
                    w.next_id = w.next_id + 1;
                    proof {
                        assert(is_hit(s0[i as int], ppos));
                        assert(w.ents@[i as int] == smitten(s0[i as int], ppos, dmg as int));
                        assert(w.ents@[s0.len() + hit_count(s0.take(i as int), ppos)]
                            == indicator_for(
                            s0[i as int],
                            n0 + hit_count(s0.take(i as int), ppos),
                            dmg as int,
                        ));
                        assert forall|j: int|
                            0 <= j < i && is_hit(#[trigger] s0[j], ppos) implies exists|dmg2: int|
                            {
                                &&& lo <= dmg2 < hi
                                &&& w.ents@[j] == smitten(s0[j], ppos, dmg2)
                                &&& w.ents@[s0.len() + hit_count(s0.take(j), ppos)]
                                    == indicator_for(
                                    s0[j],
                                    n0 + hit_count(s0.take(j), ppos),
                                    dmg2,
                                )
                            } by {
                            lemma_count_take_mono(s0, hp, j, i as int);
                            lemma_count_bounds(s0.take(j), hp);
                            let dmg2 = choose|dmg2: int|
                                {
                                    &&& lo <= dmg2 < hi
                                    &&& ents_in[j] == smitten(s0[j], ppos, dmg2)
                                    &&& ents_in[s0.len() + hit_count(s0.take(j), ppos)]
                                        == indicator_for(
                                        s0[j],
                                        n0 + hit_count(s0.take(j), ppos),
                                        dmg2,
                                    )
                                };
                            assert(w.ents@[j] == ents_in[j]);
                            assert(w.ents@[s0.len() + hit_count(s0.take(j), ppos)] == ents_in[s0.len()
                                + hit_count(s0.take(j), ppos)]);
                            assert(lo <= dmg2 < hi && w.ents@[j] == smitten(s0[j], ppos, dmg2)
                                && w.ents@[s0.len() + hit_count(s0.take(j), ppos)] == indicator_for(
                                s0[j],
                                n0 + hit_count(s0.take(j), ppos),
                                dmg2,
                            ));
                        }
                    }
                }
            },
            _ => {},
        }
        i = i + 1;
    }
    proof {
        lemma_take_all(s0);
        assert(whip_post(
            s0,
            w.ents@,
            ppos,
            n0,
            w.next_id as int,
            lo as int,
            hi as int,
        ));
        lemma_count_bounds(s0, hp);
        assert forall|k: int| s0.len() <= k < w.ents@.len() implies #[trigger] w.ents@[k].id == n0
            + (k - s0.len()) by {
            assert(data_wf(w.ents@[k].data) && w.ents@[k].id == n0 + (k - s0.len()));
        }
        lemma_whip_ids(s0, w.ents@, n0, w.next_id as int);
    }
}

/// Handle bookkeeping after one resolution: old handles stay below the old
/// counter, appended handles are consecutive from it, so all handles stay
/// distinct and below the advanced counter.
proof fn lemma_whip_ids(s0: Seq<Entity>, out: Seq<Entity>, n0: int, n1: int)
    requires
        s0.len() <= out.len(),
        n1 == n0 + (out.len() - s0.len()),
        forall|j: int| 0 <= j < s0.len() ==> #[trigger] out[j].id == s0[j].id,
        forall|k: int| s0.len() <= k < out.len() ==> #[trigger] out[k].id == n0 + (k - s0.len()),
        forall|j: int| 0 <= j < s0.len() ==> (#[trigger] s0[j].id) < n0,
        forall|j: int, k: int| 0 <= j < k < s0.len() ==> #[trigger] s0[j].id != #[trigger] s0[k].id,
    ensures
        forall|j: int| 0 <= j < out.len() ==> (#[trigger] out[j].id) < n1,
        forall|j: int, k: int| 0 <= j < k < out.len() ==> #[trigger] out[j].id != #[trigger] out[k].id,
{
    assert forall|j: int| 0 <= j < out.len() implies (#[trigger] out[j].id) < n1 by {
        if j < s0.len() {
            assert(out[j].id == s0[j].id);
        }
    }
    assert forall|j: int, k: int| 0 <= j < k < out.len() implies #[trigger] out[j].id
        != #[trigger] out[k].id by {
        if k < s0.len() {
        } else if j < s0.len() {
            assert(out[j].id < n0 && out[k].id >= n0);
        }
    }
}

} // verus!
