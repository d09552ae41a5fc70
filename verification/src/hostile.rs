//! Hostiles: enemies and bosses.
//!
//! A hostile carries its immutable archetype tag, position, facing, velocity,
//! health, and two independent attack cycles, one per modality. The
//! per-hostile steps of the targeting and combat phases live here; the world
//! applies them across its whole store.

use vstd::prelude::*;
use crate::vecmath::{
    Vec3I, normalize, norm_dir, scale_trunc, scale_trunc_exec, lemma_trunc_div_bound,
    spec_planar_dist_sq, planar_dist_sq, SCALE, POS_LIMIT, VEL_LIMIT,
};
use crate::archetype::{Archetype, stats, stats_spec};
use crate::combat::{AttackCycle, CombatState, FirePattern};
use crate::timer::TIMER_DELTA_MAX_MS;

verus! {

/// Radius of the ring on which new hostiles appear.
pub const SPAWN_RADIUS_MM: i64 = 7_000;

/// Height at which actors stand.
pub const SPAWN_HEIGHT_MM: i64 = 1_000;

/// A hostile actor.
#[derive(Clone, Copy, PartialEq, Eq, Structural, Debug)]
pub struct Hostile {
    /// Stable world id; at least one, never the player's.
    pub id: u64,
    /// Immutable archetype tag; fixes stats and behaviour.
    pub archetype: Archetype,
    pub pos: Vec3I,
    /// Horizontal unit vector the hostile faces along.
    pub facing: Vec3I,
    /// Velocity in milli-units per second.
    pub vel: Vec3I,
    pub health: u32,
    /// The melee attack cycle.
    pub melee: AttackCycle,
    /// The ranged attack cycle.
    pub ranged: AttackCycle,
    /// Set when the hostile is to be removed at the end of the tick.
    pub pending_despawn: bool,
}

impl Hostile {
    pub open spec fn wf(self) -> bool {
        &&& self.id >= 1
        &&& self.pos.in_bounds(POS_LIMIT as int)
        &&& self.facing.in_bounds(SCALE as int)
        &&& self.vel.in_bounds(VEL_LIMIT as int)
        &&& self.melee.wf()
        &&& self.melee.timer.duration_ms == stats_spec(self.archetype).attack_cooldown_ms
        &&& self.ranged.wf()
        &&& self.ranged.timer.duration_ms == stats_spec(self.archetype).attack_cooldown_ms
    }

    /// Where a hostile spawned toward `dir` stands: on the spawn ring, at
    /// standing height.
    pub open spec fn spec_spawn_pos(dir: Vec3I) -> Vec3I {
        Vec3I {
            x: (dir.x * (SPAWN_RADIUS_MM / SCALE)) as i64,
            y: SPAWN_HEIGHT_MM,
            z: (dir.z * (SPAWN_RADIUS_MM / SCALE)) as i64,
        }
    }

    /// A freshly spawned hostile: full archetype health, facing outward along
    /// `dir`, standing still, both attack cycles ready to attack.
    pub open spec fn spec_new(archetype: Archetype, dir: Vec3I, id: u64) -> Hostile {
        let cooldown = stats_spec(archetype).attack_cooldown_ms;
        Hostile {
            id,
            archetype,
            pos: Self::spec_spawn_pos(dir),
            facing: Vec3I { x: dir.x, y: 0, z: dir.z },
            vel: Vec3I { x: 0, y: 0, z: 0 },
            health: stats_spec(archetype).max_health,
            melee: AttackCycle {
                state: CombatState::Attacking,
                timer: crate::timer::Timer {
                    duration_ms: cooldown,
                    elapsed_ms: 0,
                    repeating: false,
                },
            },
            ranged: AttackCycle {
                state: CombatState::Attacking,
                timer: crate::timer::Timer {
                    duration_ms: cooldown,
                    elapsed_ms: 0,
                    repeating: false,
                },
            },
            pending_despawn: false,
        }
    }

    /// Builds a fresh hostile.
    pub fn new(archetype: Archetype, dir: Vec3I, id: u64) -> (h: Hostile)
        requires
            id >= 1,
            dir.in_bounds(SCALE as int),
            dir.y == 0,
        ensures
            h == Hostile::spec_new(archetype, dir, id),
            h.wf(),
    {
        let s = stats(archetype);
        Hostile {
            id,
            archetype,
            pos: Vec3I::new(dir.x * 7, SPAWN_HEIGHT_MM, dir.z * 7),
            facing: Vec3I::new(dir.x, 0, dir.z),
            vel: Vec3I::new(0, 0, 0),
            health: s.max_health,
            melee: AttackCycle::new(s.attack_cooldown_ms),
            ranged: AttackCycle::new(s.attack_cooldown_ms),
            pending_despawn: false,
        }
    }

    /// Whether the archetype strikes in melee.
    pub open spec fn melee_capable(self) -> bool {
        stats_spec(self.archetype).melee_range_mm > 0
    }
}

/// The vector from a hostile to the player.
pub open spec fn to_player_vec(h_pos: Vec3I, player_pos: Vec3I) -> Vec3I {
    Vec3I {
        x: (player_pos.x - h_pos.x) as i64,
        y: (player_pos.y - h_pos.y) as i64,
        z: (player_pos.z - h_pos.z) as i64,
    }
}

/// One targeting-and-movement step: the hostile turns to face the horizontal
/// direction to the player, and, while the planar distance exceeds its
/// stopping radius, sets its horizontal velocity toward the player at its
/// archetype speed; inside the radius its velocity is left as it was. A
/// hostile standing exactly on the player does nothing this tick.
pub open spec fn target_step_spec(h: Hostile, player_pos: Vec3I) -> Hostile {
    let to = to_player_vec(h.pos, player_pos);
    if to.is_zero() {
        h
    } else {
        let dir = norm_dir(to);
        let s = stats_spec(h.archetype);
        let facing = Vec3I { x: dir.x, y: 0, z: dir.z };
        let chasing = s.speed_mm_s > 0 && spec_planar_dist_sq(h.pos, player_pos)
            > s.stop_radius_mm * s.stop_radius_mm;
        let vel = if chasing {
            Vec3I {
                x: scale_trunc(dir.x as int, s.speed_mm_s as int, SCALE as int) as i64,
                y: h.vel.y,
                z: scale_trunc(dir.z as int, s.speed_mm_s as int, SCALE as int) as i64,
            }
        } else {
            h.vel
        };
        Hostile { facing, vel, ..h }
    }
}

/// Runs one targeting-and-movement step.
pub fn target_step(h: &Hostile, player_pos: Vec3I) -> (r: Hostile)
    requires
        h.wf(),
        player_pos.in_bounds(POS_LIMIT as int),
    ensures
        r == target_step_spec(*h, player_pos),
        r.wf(),
        r == (Hostile { facing: r.facing, vel: r.vel, ..*h }),
{
    let to = Vec3I::new(player_pos.x - h.pos.x, player_pos.y - h.pos.y, player_pos.z - h.pos.z);
    match normalize(to) {
        None => *h,
        Some(dir) => {
            let s = stats(h.archetype);
            let facing = Vec3I::new(dir.x, 0, dir.z);
            let pd2 = planar_dist_sq(h.pos, player_pos);
            proof {
                assert(s.stop_radius_mm * s.stop_radius_mm <= 10_000_000_000) by (nonlinear_arith)
                    requires
                        0 <= s.stop_radius_mm <= 100_000,
                ;
            }
            let chasing = s.speed_mm_s > 0 && pd2 > ((s.stop_radius_mm * s.stop_radius_mm)
                as u64);
            let vel = if chasing {
                proof {
                    assert(-(1000 * 10_000) <= dir.x * s.speed_mm_s <= 1000 * 10_000 && -(1000
                        * 10_000) <= dir.z * s.speed_mm_s <= 1000 * 10_000) by (nonlinear_arith)
                        requires
                            -1000 <= dir.x <= 1000,
                            -1000 <= dir.z <= 1000,
                            0 <= s.speed_mm_s <= 10_000,
                    ;
                    lemma_trunc_div_bound(dir.x * s.speed_mm_s, SCALE as int, 10_000);
                    lemma_trunc_div_bound(dir.z * s.speed_mm_s, SCALE as int, 10_000);
                }
                Vec3I::new(
                    scale_trunc_exec(dir.x, s.speed_mm_s, SCALE),
                    h.vel.y,
                    scale_trunc_exec(dir.z, s.speed_mm_s, SCALE),
                )
            } else {
                h.vel
            };
            Hostile { facing, vel, ..*h }
        },
    }
}

/// One melee step: a melee-capable hostile runs its melee attack cycle,
/// engaged exactly when the proximity overlap holds, and strikes when the
/// cycle triggers; a hostile without melee is untouched.
pub open spec fn melee_step_spec(h: Hostile, overlap: bool, delta_ms: u64) -> (Hostile, bool) {
    if h.melee_capable() {
        let (c, t) = h.melee.spec_step(overlap, delta_ms);
        (Hostile { melee: c, ..h }, t)
    } else {
        (h, false)
    }
}

/// Runs one melee step and reports whether the hostile strikes this tick.
pub fn melee_step(h: &Hostile, overlap: bool, delta_ms: u64) -> (r: (Hostile, bool))
    requires
        h.wf(),
        delta_ms <= TIMER_DELTA_MAX_MS,
    ensures
        r == melee_step_spec(*h, overlap, delta_ms),
        r.0.wf(),
        r.0 == (Hostile { melee: r.0.melee, ..*h }),
{
    let s = stats(h.archetype);
    if s.melee_range_mm > 0 {
        let mut cycle = h.melee;
        let triggered = cycle.step(overlap, delta_ms);
        (Hostile { melee: cycle, ..*h }, triggered)
    } else {
        (*h, false)
    }
}

/// The direction a hostile aims at the player; straight north when it stands
/// exactly on the player.
pub open spec fn aim_dir(h_pos: Vec3I, player_pos: Vec3I) -> Vec3I {
    let to = to_player_vec(h_pos, player_pos);
    if to.is_zero() {
        Vec3I { x: 0, y: 0, z: SCALE }
    } else {
        norm_dir(to)
    }
}

/// Computes the aim direction.
pub fn compute_aim_dir(h_pos: Vec3I, player_pos: Vec3I) -> (d: Vec3I)
    requires
        h_pos.in_bounds(POS_LIMIT as int),
        player_pos.in_bounds(POS_LIMIT as int),
    ensures
        d == aim_dir(h_pos, player_pos),
        d.in_bounds(SCALE as int),
{
    let to = Vec3I::new(player_pos.x - h_pos.x, player_pos.y - h_pos.y, player_pos.z - h_pos.z);
    match normalize(to) {
        None => Vec3I::new(0, 0, SCALE),
        Some(dir) => dir,
    }
}

/// The pattern a firing hostile uses: its archetype's own, with the random
/// draw picking one of the three for a mixed attacker.
pub open spec fn ranged_pattern(h: Hostile, choice: u64) -> FirePattern {
    match stats_spec(h.archetype).fire {
        crate::archetype::FireKind::Single => FirePattern::Single,
        crate::archetype::FireKind::Spread3 => FirePattern::Spread3,
        crate::archetype::FireKind::Ring8 => FirePattern::Ring8,
        crate::archetype::FireKind::Mixed => if choice == 0 {
            FirePattern::Single
        } else if choice == 1 {
            FirePattern::Spread3
        } else {
            FirePattern::Ring8
        },
        crate::archetype::FireKind::Unarmed => FirePattern::Single,
    }
}

/// One ranged step: an armed hostile runs its ranged attack cycle, always
/// engaged; when the cycle triggers it launches its pattern at the
/// player. The step yields the updated hostile and the directions launched.
pub open spec fn ranged_step_spec(h: Hostile, player_pos: Vec3I, choice: u64, delta_ms: u64) -> (
    Hostile,
    Seq<Vec3I>,
) {
    if stats_spec(h.archetype).fire == crate::archetype::FireKind::Unarmed {
        (h, Seq::empty())
    } else {
        let (c, fire) = h.ranged.spec_step(true, delta_ms);
        let h2 = Hostile { ranged: c, ..h };
        if fire {
            (
                h2,
                crate::combat::pattern_dirs_spec(
                    ranged_pattern(h, choice),
                    aim_dir(h.pos, player_pos),
                ),
            )
        } else {
            (h2, Seq::empty())
        }
    }
}

/// Runs one ranged step, returning the updated hostile and the directions it
/// fires this tick.
pub fn ranged_step(h: &Hostile, player_pos: Vec3I, choice: u64, delta_ms: u64) -> (r: (
    Hostile,
    Vec<Vec3I>,
))
    requires
        h.wf(),
        player_pos.in_bounds(POS_LIMIT as int),
        delta_ms <= TIMER_DELTA_MAX_MS,
    ensures
        r.0 == ranged_step_spec(*h, player_pos, choice, delta_ms).0,
        r.1@ == ranged_step_spec(*h, player_pos, choice, delta_ms).1,
        r.0.wf(),
        r.0 == (Hostile { ranged: r.0.ranged, ..*h }),
        forall|i: int| 0 <= i < r.1@.len() ==> (#[trigger] r.1@[i]).in_bounds(
            crate::vecmath::DIR_LIMIT as int,
        ),
{
    let s = stats(h.archetype);
    if matches!(s.fire, crate::archetype::FireKind::Unarmed) {
        (*h, Vec::new())
    } else {
        let mut cycle = h.ranged;
        let fire = cycle.step(true, delta_ms);
        let h2 = Hostile { ranged: cycle, ..*h };
        if fire {
            let pattern = match s.fire {
                crate::archetype::FireKind::Single => FirePattern::Single,
                crate::archetype::FireKind::Spread3 => FirePattern::Spread3,
                crate::archetype::FireKind::Ring8 => FirePattern::Ring8,
                crate::archetype::FireKind::Mixed => if choice == 0 {
                    FirePattern::Single
                } else if choice == 1 {
                    FirePattern::Spread3
                } else {
                    FirePattern::Ring8
                },
                crate::archetype::FireKind::Unarmed => FirePattern::Single,
            };
            let dir = compute_aim_dir(h.pos, player_pos);
            let dirs = crate::combat::pattern_dirs(pattern, dir);
            (h2, dirs)
        } else {
            (h2, Vec::new())
        }
    }
}

} // verus!
