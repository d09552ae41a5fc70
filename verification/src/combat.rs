//! The attack state machine and fire patterns.
//!
//! Every combat-capable actor alternates between Attacking and Cooldown,
//! held back by a one-shot timer. The timer ticks every tick regardless of
//! proximity; the transition out of Cooldown needs both the engagement
//! condition (proximity for melee, always met for ranged) *and* the timer, so an actor
//! whose cooldown ran out while the player was away resumes attacking on the
//! first renewed contact.

use vstd::prelude::*;
use crate::timer::{Timer, TIMER_DURATION_MAX_MS, TIMER_DELTA_MAX_MS};
use crate::vecmath::{Vec3I, rot_y, rot_y_spec, SCALE, DIR_LIMIT};

verus! {

/// The two combat states.
#[derive(Clone, Copy, PartialEq, Eq, Structural, Debug)]
pub enum CombatState {
    Attacking,
    Cooldown,
}

/// One attack modality's state and cooldown timer. An actor with both melee
/// and ranged capability carries two independent cycles.
#[derive(Clone, Copy, PartialEq, Eq, Structural, Debug)]
pub struct AttackCycle {
    pub state: CombatState,
    pub timer: Timer,
}

/// Milli-scale cosine of the spread half-angle (0.3 rad).
pub const COS_SPREAD_MM: i64 = 955;

/// Milli-scale sine of the spread half-angle (0.3 rad).
pub const SIN_SPREAD_MM: i64 = 296;

/// Milli-scale cosine of the wide spread angle (0.6 rad).
pub const COS_WIDE_MM: i64 = 825;

/// Milli-scale sine of the wide spread angle (0.6 rad).
pub const SIN_WIDE_MM: i64 = 565;

/// Milli-scale diagonal component of a unit vector (1/sqrt 2).
pub const DIAG_MM: i64 = 707;

impl AttackCycle {
    /// The cycle's timer is a well-formed one-shot.
    pub open spec fn wf(self) -> bool {
        self.timer.wf() && !self.timer.repeating
    }

    /// A fresh cycle: ready to attack, cooldown timer at zero.
    pub fn new(cooldown_ms: u64) -> (c: AttackCycle)
        requires
            1 <= cooldown_ms <= TIMER_DURATION_MAX_MS,
        ensures
            c == (AttackCycle {
                state: CombatState::Attacking,
                timer: Timer { duration_ms: cooldown_ms, elapsed_ms: 0, repeating: false },
            }),
            c.wf(),
    {
        AttackCycle { state: CombatState::Attacking, timer: Timer::new(cooldown_ms, false) }
    }

    /// One tick of the cycle. The timer always accumulates `delta_ms`.
    /// When engaged and Attacking, the attack triggers and the cycle drops
    /// into Cooldown with a restarted timer; when engaged, in Cooldown and
    /// with the timer ready, the cycle returns to Attacking (and may
    /// trigger on a later tick). While not engaged the state never changes.
    pub open spec fn spec_step(self, engaged: bool, delta_ms: u64) -> (AttackCycle, bool) {
        let ticked = self.timer.spec_advance(delta_ms);
        if engaged && self.state == CombatState::Attacking {
            (
                AttackCycle {
                    state: CombatState::Cooldown,
                    timer: Timer { elapsed_ms: 0, ..ticked },
                },
                true,
            )
        } else if engaged && self.state == CombatState::Cooldown && ticked.is_ready() {
            (AttackCycle { state: CombatState::Attacking, timer: ticked }, false)
        } else {
            (AttackCycle { state: self.state, timer: ticked }, false)
        }
    }

    /// Runs one tick of the cycle and reports whether the attack triggered.
    pub fn step(&mut self, engaged: bool, delta_ms: u64) -> (triggered: bool)
        requires
            old(self).wf(),
            delta_ms <= TIMER_DELTA_MAX_MS,
        ensures
            (*final(self), triggered) == old(self).spec_step(engaged, delta_ms),
            final(self).wf(),
            triggered ==> final(self).state == CombatState::Cooldown
                && final(self).timer.elapsed_ms == 0,
    {
        self.timer.advance_and_check(delta_ms);
        if engaged && matches!(self.state, CombatState::Attacking) {
            self.state = CombatState::Cooldown;
            self.timer.reset();
            true
        } else if engaged && matches!(self.state, CombatState::Cooldown) && self.timer.elapsed_ms
            == self.timer.duration_ms {
            self.state = CombatState::Attacking;
            false
        } else {
            false
        }
    }
}

/// The total of a sequence of tick durations.
pub open spec fn sum_deltas(deltas: Seq<u64>) -> int
    decreases deltas.len(),
{
    if deltas.len() == 0 {
        0
    } else {
        deltas[0] + sum_deltas(deltas.skip(1))
    }
}

/// The cycle after a run of ticks with the given engagement flags and
/// durations.
pub open spec fn run_cycle(c: AttackCycle, engagements: Seq<bool>, deltas: Seq<u64>) -> AttackCycle
    decreases deltas.len(),
{
    if deltas.len() == 0 {
        c
    } else {
        run_cycle(c.spec_step(engagements[0], deltas[0]).0, engagements.skip(1), deltas.skip(1))
    }
}

/// How many attacks a run of ticks triggers.
pub open spec fn run_trigger_count(c: AttackCycle, engagements: Seq<bool>, deltas: Seq<u64>) -> int
    decreases deltas.len(),
{
    if deltas.len() == 0 {
        0
    } else {
        let (c1, t) = c.spec_step(engagements[0], deltas[0]);
        (if t {
            1int
        } else {
            0int
        }) + run_trigger_count(c1, engagements.skip(1), deltas.skip(1))
    }
}

/// An actor in Cooldown cannot attack again before a full cooldown cycle has
/// passed: over any run of ticks — engaged or not, so in particular while
/// continuously overlapping the player — whose total duration, together with
/// what the timer had already accumulated, stays below the cooldown
/// threshold, no attack triggers. Since every triggered attack leaves the
/// cycle in Cooldown with a restarted timer, two attacks are always separated
/// by at least one full timer cycle.
pub proof fn lemma_cooldown_blocks_attacks(c: AttackCycle, engagements: Seq<bool>, deltas: Seq<u64>)
    requires
        c.wf(),
        c.state == CombatState::Cooldown,
        engagements.len() == deltas.len(),
        c.timer.elapsed_ms + sum_deltas(deltas) < c.timer.duration_ms,
    ensures
        run_trigger_count(c, engagements, deltas) == 0,
        run_cycle(c, engagements, deltas).state == CombatState::Cooldown,
        run_cycle(c, engagements, deltas).timer.elapsed_ms == c.timer.elapsed_ms + sum_deltas(deltas),
    decreases deltas.len(),
{
    if deltas.len() > 0 {
        let (c1, t) = c.spec_step(engagements[0], deltas[0]);
        assert(sum_deltas(deltas.skip(1)) >= 0) by {
            lemma_sum_deltas_nonneg(deltas.skip(1));
        }
        assert(c1.timer.elapsed_ms == c.timer.elapsed_ms + deltas[0]);
        assert(!t);
        lemma_cooldown_blocks_attacks(c1, engagements.skip(1), deltas.skip(1));
    }
}

/// A strike opens a full cooldown cycle: after a tick on which the attack
/// triggers, no further attack can trigger over any following run of ticks —
/// engaged throughout or not — whose total duration stays below the cooldown
/// threshold. Two strikes are therefore always separated by at least one
/// full timer cycle.
pub proof fn lemma_strike_starts_full_cooldown(
    c: AttackCycle,
    d0: u64,
    engagements: Seq<bool>,
    deltas: Seq<u64>,
)
    requires
        c.wf(),
        c.spec_step(true, d0).1,
        engagements.len() == deltas.len(),
        sum_deltas(deltas) < c.timer.duration_ms,
    ensures
        run_trigger_count(c.spec_step(true, d0).0, engagements, deltas) == 0,
{
    let c1 = c.spec_step(true, d0).0;
    assert(c1.state == CombatState::Cooldown && c1.timer.elapsed_ms == 0 && c1.timer.duration_ms
        == c.timer.duration_ms);
    lemma_cooldown_blocks_attacks(c1, engagements, deltas);
}

/// Tick durations are non-negative, so their total is too.
pub proof fn lemma_sum_deltas_nonneg(deltas: Seq<u64>)
    ensures
        sum_deltas(deltas) >= 0,
    decreases deltas.len(),
{
    if deltas.len() > 0 {
        lemma_sum_deltas_nonneg(deltas.skip(1));
    }
}

/// A ranged attack's shape.
#[derive(Clone, Copy, PartialEq, Eq, Structural, Debug)]
pub enum FirePattern {
    /// One projectile along the aim direction.
    Single,
    /// Three projectiles: the aim direction and its rotations by the spread
    /// angle to either side.
    Spread3,
    /// Eight projectiles along the four compass and four diagonal unit
    /// directions, ignoring the aim entirely.
    Ring8,
}

/// The eight ring directions: the four axis-aligned horizontal unit vectors
/// and the four normalized diagonals.
pub open spec fn ring8_dirs() -> Seq<Vec3I> {
    seq![
        Vec3I { x: SCALE, y: 0, z: 0 },
        Vec3I { x: 0, y: 0, z: SCALE },
        Vec3I { x: 0, y: 0, z: (-SCALE) as i64 },
        Vec3I { x: (-SCALE) as i64, y: 0, z: 0 },
        Vec3I { x: DIAG_MM, y: 0, z: DIAG_MM },
        Vec3I { x: (-DIAG_MM) as i64, y: 0, z: DIAG_MM },
        Vec3I { x: DIAG_MM, y: 0, z: (-DIAG_MM) as i64 },
        Vec3I { x: (-DIAG_MM) as i64, y: 0, z: (-DIAG_MM) as i64 },
    ]
}

/// The three spread directions: rotated one spread step clockwise, straight,
/// rotated one spread step counter-clockwise.
pub open spec fn spread3_dirs(dir: Vec3I) -> Seq<Vec3I> {
    seq![
        rot_y_spec(dir, COS_SPREAD_MM as int, -(SIN_SPREAD_MM as int)),
        dir,
        rot_y_spec(dir, COS_SPREAD_MM as int, SIN_SPREAD_MM as int),
    ]
}

/// The directions a pattern launches, given the aim direction.
pub open spec fn pattern_dirs_spec(p: FirePattern, dir: Vec3I) -> Seq<Vec3I> {
    match p {
        FirePattern::Single => seq![dir],
        FirePattern::Spread3 => spread3_dirs(dir),
        FirePattern::Ring8 => ring8_dirs(),
    }
}

/// Computes the directions a pattern launches. The ring pattern always
/// produces exactly the eight compass and diagonal unit directions, whatever
/// the aim.
pub fn pattern_dirs(p: FirePattern, dir: Vec3I) -> (ds: Vec<Vec3I>)
    requires
        dir.in_bounds(SCALE as int),
    ensures
        ds@ == pattern_dirs_spec(p, dir),
        p == FirePattern::Single ==> ds@.len() == 1,
        p == FirePattern::Spread3 ==> ds@.len() == 3,
        p == FirePattern::Ring8 ==> ds@ == ring8_dirs() && ds@.len() == 8,
        forall|i: int| 0 <= i < ds@.len() ==> (#[trigger] ds@[i]).in_bounds(DIR_LIMIT as int),
{
    let mut ds: Vec<Vec3I> = Vec::new();
    match p {
        FirePattern::Single => {
            ds.push(dir);
            assert(ds@ =~= pattern_dirs_spec(p, dir));
        },
        FirePattern::Spread3 => {
            ds.push(rot_y(dir, COS_SPREAD_MM, -SIN_SPREAD_MM));
            ds.push(dir);
            ds.push(rot_y(dir, COS_SPREAD_MM, SIN_SPREAD_MM));
            assert(ds@ =~= pattern_dirs_spec(p, dir));
        },
        FirePattern::Ring8 => {
            ds.push(Vec3I::new(SCALE, 0, 0));
            ds.push(Vec3I::new(0, 0, SCALE));
            ds.push(Vec3I::new(0, 0, -SCALE));
            ds.push(Vec3I::new(-SCALE, 0, 0));
            ds.push(Vec3I::new(DIAG_MM, 0, DIAG_MM));
            ds.push(Vec3I::new(-DIAG_MM, 0, DIAG_MM));
            ds.push(Vec3I::new(DIAG_MM, 0, -DIAG_MM));
            ds.push(Vec3I::new(-DIAG_MM, 0, -DIAG_MM));
            assert(ds@ =~= pattern_dirs_spec(p, dir));
        },
    }
    ds
}

/// The five directions of the player's shotgun: the aim and its rotations by
/// the spread and wide angles to either side.
pub open spec fn shotgun5_dirs(dir: Vec3I) -> Seq<Vec3I> {
    seq![
        rot_y_spec(dir, COS_WIDE_MM as int, -(SIN_WIDE_MM as int)),
        rot_y_spec(dir, COS_SPREAD_MM as int, -(SIN_SPREAD_MM as int)),
        dir,
        rot_y_spec(dir, COS_SPREAD_MM as int, SIN_SPREAD_MM as int),
        rot_y_spec(dir, COS_WIDE_MM as int, SIN_WIDE_MM as int),
    ]
}

/// Computes the player's shotgun directions.
pub fn shotgun5(dir: Vec3I) -> (ds: Vec<Vec3I>)
    requires
        dir.in_bounds(SCALE as int),
    ensures
        ds@ == shotgun5_dirs(dir),
        ds@.len() == 5,
        forall|i: int| 0 <= i < ds@.len() ==> (#[trigger] ds@[i]).in_bounds(DIR_LIMIT as int),
{
    let mut ds: Vec<Vec3I> = Vec::new();
    ds.push(rot_y(dir, COS_WIDE_MM, -SIN_WIDE_MM));
    ds.push(rot_y(dir, COS_SPREAD_MM, -SIN_SPREAD_MM));
    ds.push(dir);
    ds.push(rot_y(dir, COS_SPREAD_MM, SIN_SPREAD_MM));
    ds.push(rot_y(dir, COS_WIDE_MM, SIN_WIDE_MM));
    assert(ds@ =~= shotgun5_dirs(dir));
    ds
}

} // verus!
