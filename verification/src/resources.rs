//! Shared per-frame configuration: the enemy spawn interval and the whip
//! weapon's interval and damage bounds. These are single shared instances,
//! injected into each frame's passes, never ambient globals.

use vstd::prelude::*;
use crate::timer::Timer;
use crate::world::DAMAGE_LIMIT;

verus! {

/// Interval between enemy spawns, milliseconds.
pub const SPAWN_INTERVAL_MS: u64 = 200;

/// Interval between whip activations, milliseconds.
pub const WHIP_INTERVAL_MS: u64 = 2000;

/// Default lower damage bound of the whip (inclusive).
pub const WHIP_MIN_DAMAGE: i64 = 4;

/// Default upper damage bound of the whip (exclusive).
pub const WHIP_MAX_DAMAGE: i64 = 8;

/// How often to spawn a new enemy (repeating countdown).
#[derive(Copy, Clone, PartialEq, Eq, Structural, Debug)]
pub struct EnemySpawnConfig {
    pub timer: Timer,
}

impl EnemySpawnConfig {
    pub open spec fn wf(self) -> bool {
        self.timer.wf() && self.timer.repeating
    }

    /// The standard spawner: one enemy every fifth of a second.
    pub fn standard() -> (c: EnemySpawnConfig)
        ensures
            c.wf(),
            c.timer == (Timer {
                duration_ms: SPAWN_INTERVAL_MS,
                elapsed_ms: 0,
                repeating: true,
                finished: false,
            }),
    {
        EnemySpawnConfig { timer: Timer::new_repeating(SPAWN_INTERVAL_MS) }
    }
}

/// How often to attack with the whip, and the damage roll's bounds.
#[derive(Copy, Clone, PartialEq, Eq, Structural, Debug)]
pub struct WeaponConfig {
    pub whip_timer: Timer,
    pub whip_min_damage: i64,
    pub whip_max_damage: i64,
}

impl WeaponConfig {
    pub open spec fn wf(self) -> bool {
        &&& self.whip_timer.wf()
        &&& self.whip_timer.repeating
        &&& 0 < self.whip_min_damage < self.whip_max_damage <= DAMAGE_LIMIT
    }

    /// The standard whip: fires every two seconds for 4 to 7 damage.
    pub fn standard() -> (c: WeaponConfig)
        ensures
            c.wf(),
            c.whip_timer == (Timer {
                duration_ms: WHIP_INTERVAL_MS,
                elapsed_ms: 0,
                repeating: true,
                finished: false,
            }),
            c.whip_min_damage == WHIP_MIN_DAMAGE,
            c.whip_max_damage == WHIP_MAX_DAMAGE,
    {
        WeaponConfig {
            whip_timer: Timer::new_repeating(WHIP_INTERVAL_MS),
            whip_min_damage: WHIP_MIN_DAMAGE,
            whip_max_damage: WHIP_MAX_DAMAGE,
        }
    }
}

} // verus!
