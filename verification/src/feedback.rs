//! Feedback renderer inputs. The aura's opacity follows the whip
//! countdown's phase as an inverted triangular wave, floor-clamped so it
//! never goes fully transparent. Damage indicators drift upward with a
//! sideways sway taken from a fixed-point sine of their countdown's
//! progress, fade out linearly, and destroy themselves when the countdown
//! finishes.

use vstd::prelude::*;
use crate::geom::{clamped_vec, shift_clamped};
use crate::seqtools::{filter_map, lemma_filter_map_take_succ, lemma_take_all};
use crate::timer::DT_LIMIT;
use crate::world::{World, Entity, EntityData, data_wf, lemma_filter_map_id_preserving};
use crate::resources::WeaponConfig;

verus! {

/// Half a turn, in milliradians, as the sine approximation counts it.
pub const SIN_HALF_TURN_MRAD: i64 = 3142;

/// Upward drift speed of an indicator, milli-units per millisecond.
pub const INDICATOR_RISE: i64 = 100;

/// The aura's opacity, in thousandths, at whip phase `p` (thousandths of
/// the period): the phase's triangular wave, inverted, shifted down by
/// half, floored at one tenth — dimmest mid-period, brightest as the whip
/// comes due.
pub open spec fn aura_alpha(p: int) -> int {
    let scale = if p < 500 {
        2 * p
    } else {
        2 * (1000 - p)
    };
    let inv = 1000 - scale;
    if inv - 500 > 100 {
        inv - 500
    } else {
        100
    }
}

/// Drive the aura's opacity from the whip countdown's phase.
pub fn strobe_aura(w: &mut World, cfg: &WeaponConfig)
    requires
        old(w).wf(),
        cfg.wf(),
    ensures
        final(w).wf(),
        final(w).ents@ == old(w).ents@,
        final(w).player == old(w).player,
        final(w).camera == old(w).camera,
        final(w).next_id == old(w).next_id,
        old(w).player is None ==> final(w).aura_alpha_pm == old(w).aura_alpha_pm,
        old(w).player is Some ==> final(w).aura_alpha_pm == aura_alpha(
            cfg.whip_timer.percent_pm_spec(),
        ),
{
    match &w.player {
        Some(_) => {},
        None => {
            return ;
        },
    }
    let p = cfg.whip_timer.percent_pm();
    let scale: u64 = if p < 500 {
        2 * p
    } else {
        2 * (1000 - p)
    };
    let inv: u64 = 1000 - scale;
    let alpha: u64 = if inv > 600 {
        inv - 500
    } else {
        100
    };
    w.aura_alpha_pm = alpha;
}

/// The Bhaskara fixed-point sine of `x` milliradians, in thousandths, for
/// `x` in the first half turn.
pub open spec fn sin_half_pm(x: int) -> int {
    16000 * x * (SIN_HALF_TURN_MRAD - x) / (5 * SIN_HALF_TURN_MRAD * SIN_HALF_TURN_MRAD - 4 * x * (
    SIN_HALF_TURN_MRAD - x))
}

/// The fixed-point sine of `a` milliradians, in thousandths, for `a` in
/// `[0, 10000)`: one full turn and a bit, negative in the second half
/// turn.
pub open spec fn sin_wave_pm(a: int) -> int {
    let b = if a < 2 * SIN_HALF_TURN_MRAD {
        a
    } else {
        a - 2 * SIN_HALF_TURN_MRAD
    };
    if b < SIN_HALF_TURN_MRAD {
        sin_half_pm(b)
    } else {
        -sin_half_pm(b - SIN_HALF_TURN_MRAD)
    }
}

/// The half-turn sine stays within `[0, 1000]`.
proof fn lemma_sin_half_range(x: int)
    requires
        0 <= x <= SIN_HALF_TURN_MRAD,
    ensures
        0 <= sin_half_pm(x) <= 1000,
{
    let u = x * (SIN_HALF_TURN_MRAD - x);
    assert(0 <= u <= 1571 * 1571) by (nonlinear_arith)
        requires
            0 <= x <= 3142,
            u == x * (3142 - x);
    let num = 16000 * u;
    let den = 5 * SIN_HALF_TURN_MRAD * SIN_HALF_TURN_MRAD - 4 * u;
    assert(16000 * x * (SIN_HALF_TURN_MRAD - x) == num) by (nonlinear_arith)
        requires u == x * (SIN_HALF_TURN_MRAD - x), num == 16000 * u;
    assert(5 * SIN_HALF_TURN_MRAD * SIN_HALF_TURN_MRAD - 4 * x * (SIN_HALF_TURN_MRAD - x) == den)
        by (nonlinear_arith)
        requires
            u == x * (SIN_HALF_TURN_MRAD - x),
            den == 5 * SIN_HALF_TURN_MRAD * SIN_HALF_TURN_MRAD - 4 * u;
    assert(den == 49_360_820 - 4 * u);
    assert(num <= 1000 * den) by (nonlinear_arith)
        requires
            num == 16000 * u,
            den == 49_360_820 - 4 * u,
            0 <= u <= 2_468_041;
    vstd::arithmetic::div_mod::lemma_div_pos_is_pos(num, den);
    vstd::arithmetic::div_mod::lemma_div_is_ordered(num, 1000 * den, den);
    vstd::arithmetic::div_mod::lemma_div_multiples_vanish(1000, den);
    assert(num / den <= (den * 1000) / den) by {
        assert(1000 * den == den * 1000);
    }
    assert(sin_half_pm(x) == num / den);
}

/// The full wave stays within `[-1000, 1000]`.
pub proof fn lemma_sin_wave_range(a: int)
    requires
        0 <= a < 10_000,
    ensures
        -1000 <= sin_wave_pm(a) <= 1000,
{
    let b = if a < 2 * SIN_HALF_TURN_MRAD {
        a
    } else {
        a - 2 * SIN_HALF_TURN_MRAD
    };
    if b < SIN_HALF_TURN_MRAD {
        lemma_sin_half_range(b);
    } else {
        lemma_sin_half_range(b - SIN_HALF_TURN_MRAD);
    }
}

/// The executable fixed-point sine.
pub fn sin_wave(a: u64) -> (r: i64)
    requires
        a < 10_000,
    ensures
        r == sin_wave_pm(a as int),
        -1000 <= r <= 1000,
{
    proof {
        lemma_sin_wave_range(a as int);
    }
    let b: i64 = if (a as i64) < 2 * SIN_HALF_TURN_MRAD {
        a as i64
    } else {
        (a as i64) - 2 * SIN_HALF_TURN_MRAD
    };
    let (x, neg): (i64, bool) = if b < SIN_HALF_TURN_MRAD {
        (b, false)
    } else {
        (b - SIN_HALF_TURN_MRAD, true)
    };
    proof {
        lemma_sin_half_range(x as int);
        assert(0 <= x as int * (SIN_HALF_TURN_MRAD - x) <= 1571 * 1571) by (nonlinear_arith)
            requires 0 <= x <= 3142;
    }
    let u: i64 = x * (SIN_HALF_TURN_MRAD - x);
    let num: i64 = 16000 * u;
    let den: i64 = 5 * SIN_HALF_TURN_MRAD * SIN_HALF_TURN_MRAD - 4 * u;
    let s: i64 = num / den;
    proof {
        assert(16000 * (x as int) * (SIN_HALF_TURN_MRAD - x) == num) by (nonlinear_arith)
            requires u == x as int * (SIN_HALF_TURN_MRAD - x), num == 16000 * (u as int);
        assert(5 * SIN_HALF_TURN_MRAD * SIN_HALF_TURN_MRAD - 4 * (x as int) * (SIN_HALF_TURN_MRAD
            - x) == den) by (nonlinear_arith)
            requires
                u == x as int * (SIN_HALF_TURN_MRAD - x),
                den == 5 * SIN_HALF_TURN_MRAD * SIN_HALF_TURN_MRAD - 4 * (u as int);
        assert(s == sin_half_pm(x as int));
    }
    if neg {
        -s
    } else {
        s
    }
}

/// What one entity becomes under the indicator animation for elapsed time
/// `dt`: an indicator whose countdown finishes is destroyed; otherwise it
/// rises, sways by the sine of its progress, and its opacity fades
/// linearly toward zero. Everything else is untouched.
pub open spec fn animate_one(e: Entity, dt: int) -> Option<Entity> {
    match e.data {
        EntityData::DamageIndicator { pos, damage, timer, alpha_pm } => {
            if timer.fires(dt) {
                None
            } else {
                let t2 = timer.ticked(dt);
                let pct = t2.percent_pm_spec();
                let wave = sin_wave_pm(pct * 10);
                let dx = if wave >= 0 {
                    wave * dt / 20
                } else {
                    -((-wave) * dt / 20)
                };
                Some(
                    Entity {
                        id: e.id,
                        data: EntityData::DamageIndicator {
                            pos: clamped_vec(pos.x + dx, pos.y + INDICATOR_RISE * dt),
                            damage,
                            timer: t2,
                            alpha_pm: (1000 - pct) as u64,
                        },
                    },
                )
            }
        },
        _ => Some(e),
    }
}

/// Advance every damage indicator's countdown by the elapsed time, destroy
/// the finished ones, and animate the rest: upward drift, sideways sway,
/// linear fade. Displayed opacity never goes negative.
pub fn animate_damage_indicators(w: &mut World, dt_ms: u64)
    requires
        old(w).wf(),
        dt_ms <= DT_LIMIT,
    ensures
        final(w).wf(),
        final(w).player == old(w).player,
        final(w).camera == old(w).camera,
        final(w).aura_alpha_pm == old(w).aura_alpha_pm,
        final(w).next_id == old(w).next_id,
        final(w).ents@ == filter_map(old(w).ents@, |e: Entity| animate_one(e, dt_ms as int)),
{
    let ghost s0 = w.ents@;
    let ghost f = |e: Entity| animate_one(e, dt_ms as int);
    let len = w.ents.len();
    let mut out: Vec<Entity> = Vec::new();
    let mut i: usize = 0;
    proof {
        assert(out@ =~= filter_map(s0.take(0), f));
    }
    while i < len
        invariant
            i <= len,
            len == s0.len(),
            w.ents@ == s0,
            out@ == filter_map(s0.take(i as int), f),
            f == (|e: Entity| animate_one(e, dt_ms as int)),
            dt_ms <= DT_LIMIT,
            forall|k: int| 0 <= k < out@.len() ==> data_wf(#[trigger] out@[k].data),
            forall|j: int| 0 <= j < s0.len() ==> data_wf(#[trigger] s0[j].data),
        decreases len - i,
    {
        proof {
            lemma_filter_map_take_succ(s0, f, i as int);
        }
        let e = w.ents[i];
        match e.data {
            EntityData::DamageIndicator { pos, damage, timer, alpha_pm } => {
                let mut t2 = timer;
                t2.tick(dt_ms);
                if t2.finished {
                    // countdown done: the indicator is destroyed
                } else {
                    let pct = t2.percent_pm();
                    let wave = sin_wave(pct * 10);
                    proof {
                        assert(wave * (dt_ms as i64) <= 1_000_000_000 && wave * (dt_ms as i64)
                            >= -1_000_000_000) by (nonlinear_arith)
                            requires
                                -1000 <= wave <= 1000,
                                0 <= dt_ms <= 1_000_000;
                        assert((-wave) * (dt_ms as i64) <= 1_000_000_000 && (-wave) * (dt_ms
                            as i64) >= -1_000_000_000) by (nonlinear_arith)
                            requires
                                -1000 <= wave <= 1000,
                                0 <= dt_ms <= 1_000_000;
                    }
                    let dx: i64 = if wave >= 0 {
                        wave * (dt_ms as i64) / 20
                    } else {
                        -((-wave) * (dt_ms as i64) / 20)
                    };
                    let dy: i64 = INDICATOR_RISE * (dt_ms as i64);
                    let q = shift_clamped(pos, dx, dy);
                    out.push(
                        Entity {
                            id: e.id,
                            data: EntityData::DamageIndicator {
                                pos: q,
                                damage,
                                timer: t2,
                                alpha_pm: 1000 - pct,
                            },
                        },
                    );
                }
            },
            _ => {
                out.push(e);
            },
        }
        i = i + 1;
    }
    proof {
        lemma_take_all(s0);
        lemma_filter_map_id_preserving(s0, f);
        assert forall|k: int| 0 <= k < filter_map(s0, f).len() implies (#[trigger] filter_map(
            s0,
            f,
        )[k].id) < w.next_id by {
            let j = choose|j: int| 0 <= j < s0.len() && (filter_map(s0, f)[k].id) == s0[j].id;
        }
    }
    w.ents = out;
}

} // verus!
