//! The simulation world and its tick.
//!
//! The world owns the player, every hostile, every projectile, the pickup
//! and the spawn timers. A tick runs its phases in a fixed order — spawner,
//! targeting and movement, motion, combat, projectiles, damage ledger,
//! removal sweep, pickup — with damage collected into a pending list and
//! applied once, and removals deferred to a single sweep, so no entity is
//! processed after it is logically dead. Each phase that consumes a
//! collision answer takes it as an argument; [`World::tick`] feeds the
//! phases from the world's own deterministic, order-stable overlap tests,
//! which measure horizontal distance — colliders are modeled as full-height
//! vertical capsules, so standing heights and the boss's lowered muzzle
//! never decide a hit on their own.

use vstd::prelude::*;
use crate::vecmath::{
    Vec3I, dist_sq, planar_dist_sq, spec_planar_dist_sq, spec_dist_sq, scale_trunc, scale_trunc_exec,
    clamp_pos, clamp_pos_spec, lemma_trunc_div_bound, SCALE, POS_LIMIT, PROJ_POS_LIMIT,
    VEL_LIMIT, DIR_LIMIT, STEP_LIMIT,
};
use crate::timer::Timer;
use crate::health::{apply_damage, apply_heal, damage_fold, heal_spec};
use crate::archetype::{
    Archetype, EnemyType, BossType, stats, stats_spec, enemy_type_of_draw, boss_type_of_draw,
};
use crate::hostile::{
    Hostile, target_step, target_step_spec, melee_step, melee_step_spec, ranged_step,
    ranged_step_spec,
};
use crate::player::{
    Player, Weapon, WeaponType, player_move, player_move_spec, cycle_weapon, next_weapon,
    fire_dirs_spec, PLAYER_RADIUS_MM, PLAYER_MELEE_RANGE_MM, PLAYER_MELEE_DAMAGE,
};
use crate::projectile::{
    Projectile, SHOT_SPEED_HOSTILE_MM_S, SHOT_SPEED_PLAYER_MM_S, SHOT_RADIUS_MM, SHOT_DAMAGE,
};
use crate::pickup::{
    Pickup, chosen_sample, choose_pickup_pos, PICKUP_PERIOD_MS, PICKUP_HEAL, PICKUP_HEIGHT_MM,
    PICKUP_RADIUS_MM, PICKUP_BOX_MM, PICKUP_ATTEMPTS,
};
use crate::rng::{random_below, random_planar_dir};
use crate::TICK_DELTA_MAX_MS;

verus! {

/// The player's world id. Hostiles always get ids of one and above.
pub const PLAYER_ID: u64 = 0;

/// Milliseconds between enemy spawns.
pub const ENEMY_SPAWN_PERIOD_MS: u64 = 7_000;

/// Milliseconds between boss spawns.
pub const BOSS_SPAWN_PERIOD_MS: u64 = 20_000;

/// How far below its center a boss's muzzle sits: boss volleys launch one
/// unit under the boss position.
pub const BOSS_MUZZLE_DROP_MM: i64 = 1_000;

/// One applied or pending damage: who is struck, for how much, and where —
/// the feedback collaborator turns applied events into floating text.
#[derive(Clone, Copy, PartialEq, Eq, Structural, Debug)]
pub struct DamageEvent {
    /// World id of the actor struck.
    pub target: u64,
    pub amount: u32,
    /// Where the strike landed.
    pub pos: Vec3I,
}

/// The simulation world.
pub struct World {
    pub player: Player,
    pub hostiles: Vec<Hostile>,
    pub projectiles: Vec<Projectile>,
    pub pickup: Option<Pickup>,
    /// Damage collected during the tick, applied once by the ledger.
    pub pending: Vec<DamageEvent>,
    pub enemy_spawn_timer: Timer,
    pub boss_spawn_timer: Timer,
    pub pickup_timer: Timer,
    /// The next id to hand out; ids are never reused.
    pub next_id: u64,
}

impl World {
    pub open spec fn wf(self) -> bool {
        &&& self.player.wf()
        &&& forall|i: int| 0 <= i < self.hostiles@.len() ==> (#[trigger] self.hostiles@[i]).wf()
        &&& forall|i: int, j: int|
            0 <= i < j < self.hostiles@.len() ==> (#[trigger] self.hostiles@[i]).id != (
            #[trigger] self.hostiles@[j]).id
        &&& forall|i: int| 0 <= i < self.hostiles@.len() ==> (#[trigger] self.hostiles@[i]).id
            < self.next_id
        &&& forall|i: int| 0 <= i < self.projectiles@.len() ==> (
        #[trigger] self.projectiles@[i]).wf()
        &&& match self.pickup {
            Some(p) => p.pos.in_bounds(POS_LIMIT as int),
            None => true,
        }
        &&& self.enemy_spawn_timer.wf() && self.enemy_spawn_timer.repeating
            && self.enemy_spawn_timer.duration_ms == ENEMY_SPAWN_PERIOD_MS
        &&& self.boss_spawn_timer.wf() && self.boss_spawn_timer.repeating
            && self.boss_spawn_timer.duration_ms == BOSS_SPAWN_PERIOD_MS
        &&& self.pickup_timer.wf() && self.pickup_timer.repeating
            && self.pickup_timer.duration_ms == PICKUP_PERIOD_MS
        &&& self.next_id >= 1
    }

    /// The state a world is in between ticks: well-formed, every stored
    /// hostile alive, every stored projectile in flight. Damage may be
    /// pending — a player strike queued between ticks is applied by the next
    /// tick's ledger.
    pub open spec fn ready(self) -> bool {
        &&& self.wf()
        &&& forall|i: int| 0 <= i < self.hostiles@.len() ==> (
        #[trigger] self.hostiles@[i]).health > 0 && !self.hostiles@[i].pending_despawn
        &&& forall|i: int| 0 <= i < self.projectiles@.len() ==> (
        #[trigger] self.projectiles@[i]).alive
    }

    /// Creates the world at level start: the player alone, nothing spawned,
    /// all timers fresh. The player exists from this moment on and is never
    /// despawned.
    pub fn new() -> (w: World)
        ensures
            w.player == Player::spec_initial(),
            w.hostiles@ == Seq::<Hostile>::empty(),
            w.projectiles@ == Seq::<Projectile>::empty(),
            w.pickup is None,
            w.pending@ == Seq::<DamageEvent>::empty(),
            w.enemy_spawn_timer == (Timer {
                duration_ms: ENEMY_SPAWN_PERIOD_MS,
                elapsed_ms: 0,
                repeating: true,
            }),
            w.boss_spawn_timer == (Timer {
                duration_ms: BOSS_SPAWN_PERIOD_MS,
                elapsed_ms: 0,
                repeating: true,
            }),
            w.pickup_timer == (Timer {
                duration_ms: PICKUP_PERIOD_MS,
                elapsed_ms: 0,
                repeating: true,
            }),
            w.next_id == 1,
            w.ready(),
    {
        let w = World {
            player: Player::initial(),
            hostiles: Vec::new(),
            projectiles: Vec::new(),
            pickup: None,
            pending: Vec::new(),
            enemy_spawn_timer: Timer::new(ENEMY_SPAWN_PERIOD_MS, true),
            boss_spawn_timer: Timer::new(BOSS_SPAWN_PERIOD_MS, true),
            pickup_timer: Timer::new(PICKUP_PERIOD_MS, true),
            next_id: 1,
        };
        w
    }

    /// The index of the hostile with the given id, if it is stored.
    pub fn find_hostile(&self, id: u64) -> (r: Option<usize>)
        ensures
            match r {
                Some(j) => 0 <= j < self.hostiles@.len() && self.hostiles@[j as int].id == id,
                None => forall|j: int| 0 <= j < self.hostiles@.len() ==> (
                #[trigger] self.hostiles@[j]).id != id,
            },
    {
        let n = self.hostiles.len();
        let mut k: usize = 0;
        while k < n
            invariant
                0 <= k <= n,
                n == self.hostiles@.len(),
                forall|j: int| 0 <= j < k ==> (#[trigger] self.hostiles@[j]).id != id,
            decreases n - k,
        {
            if self.hostiles[k].id == id {
                return Some(k);
            }
            k = k + 1;
        }
        None
    }

    /// Spawns one hostile of the given archetype on the spawn ring, toward
    /// `dir`, assigning it the next id.
    pub fn spawn_hostile_at(&mut self, archetype: Archetype, dir: Vec3I)
        requires
            old(self).wf(),
            old(self).next_id < u64::MAX,
            dir.in_bounds(SCALE as int),
            dir.y == 0,
        ensures
            final(self).hostiles@ == old(self).hostiles@.push(
                Hostile::spec_new(archetype, dir, old(self).next_id),
            ),
            final(self).next_id == old(self).next_id + 1,
            *final(self) == (World {
                hostiles: final(self).hostiles,
                next_id: final(self).next_id,
                ..*old(self)
            }),
            final(self).wf(),
    {
        let h = Hostile::new(archetype, dir, self.next_id);
        self.hostiles.push(h);
        self.next_id = self.next_id + 1;
        proof {
            assert forall|i: int| 0 <= i < self.hostiles@.len() implies (
            #[trigger] self.hostiles@[i]).wf() by {
                if i < self.hostiles@.len() - 1 {
                    assert(self.hostiles@[i] == old(self).hostiles@[i]);
                }
            }
            assert forall|i: int| 0 <= i < self.hostiles@.len() implies (
            #[trigger] self.hostiles@[i]).id < self.next_id by {
                if i < self.hostiles@.len() - 1 {
                    assert(self.hostiles@[i] == old(self).hostiles@[i]);
                }
            }
        }
    }

    /// The spawner: advances both spawn timers; each time one fires, a
    /// hostile of a uniformly drawn archetype appears at a random point on
    /// the spawn ring, ready to attack.
    pub fn spawn_phase(&mut self, delta_ms: u64)
        requires
            old(self).wf(),
            old(self).next_id + 2 < u64::MAX,
            delta_ms <= TICK_DELTA_MAX_MS,
        ensures
            final(self).wf(),
            final(self).enemy_spawn_timer == old(self).enemy_spawn_timer.spec_advance(delta_ms),
            final(self).boss_spawn_timer == old(self).boss_spawn_timer.spec_advance(delta_ms),
            *final(self) == (World {
                hostiles: final(self).hostiles,
                next_id: final(self).next_id,
                enemy_spawn_timer: final(self).enemy_spawn_timer,
                boss_spawn_timer: final(self).boss_spawn_timer,
                ..*old(self)
            }),
            final(self).hostiles@.len() == old(self).hostiles@.len() + (if old(self).enemy_spawn_timer.spec_fires(delta_ms) {
                1int
            } else {
                0int
            }) + (if old(self).boss_spawn_timer.spec_fires(delta_ms) {
                1int
            } else {
                0int
            }),
            forall|i: int| 0 <= i < old(self).hostiles@.len() ==> final(self).hostiles@[i] == old(self).hostiles@[i],
            final(self).next_id == old(self).next_id + (if old(self).enemy_spawn_timer.spec_fires(delta_ms) {
                1int
            } else {
                0int
            }) + (if old(self).boss_spawn_timer.spec_fires(delta_ms) {
                1int
            } else {
                0int
            }),
            old(self).enemy_spawn_timer.spec_fires(delta_ms) ==> exists|t: EnemyType, d: Vec3I|
                d.in_bounds(SCALE as int) && d.y == 0 && final(self).hostiles@[old(self).hostiles@.len() as int] == Hostile::spec_new(
                    Archetype::Enemy(t),
                    d,
                    old(self).next_id,
                ),
            old(self).boss_spawn_timer.spec_fires(delta_ms) ==> exists|t: BossType, d: Vec3I|
                d.in_bounds(SCALE as int) && d.y == 0 && final(self).hostiles@[final(self).hostiles@.len() - 1] == Hostile::spec_new(
                    Archetype::Boss(t),
                    d,
                    (final(self).next_id - 1) as u64,
                ),
            forall|i: int| 0 <= i < final(self).hostiles@.len() ==> (
            #[trigger] final(self).hostiles@[i]).health > 0 && !final(self).hostiles@[i].pending_despawn || i < old(self).hostiles@.len(),
    {
        let enemy_fired = self.enemy_spawn_timer.advance_and_check(delta_ms);
        let boss_fired = self.boss_spawn_timer.advance_and_check(delta_ms);
        if enemy_fired {
            let k = random_below(4);
            let t = enemy_type_of_draw(k);
            let d = random_planar_dir();
            self.spawn_hostile_at(Archetype::Enemy(t), d);
        }
        if boss_fired {
            let k = random_below(2);
            let t = boss_type_of_draw(k);
            let d = random_planar_dir();
            self.spawn_hostile_at(Archetype::Boss(t), d);
        }
    }

    /// Targeting and movement: every hostile turns toward the player and,
    /// outside its stopping radius, sets its horizontal velocity toward the
    /// player. Since the player always exists, this never has to skip a
    /// tick.
    pub fn targeting_phase(&mut self)
        requires
            old(self).wf(),
        ensures
            final(self).wf(),
            final(self).hostiles@.len() == old(self).hostiles@.len(),
            forall|i: int| 0 <= i < old(self).hostiles@.len() ==> final(self).hostiles@[i]
                == target_step_spec(#[trigger] old(self).hostiles@[i], old(self).player.pos),
            *final(self) == (World { hostiles: final(self).hostiles, ..*old(self) }),
    {
        let ppos = self.player.pos;
        let n = self.hostiles.len();
        let mut k: usize = 0;
        while k < n
            invariant
                0 <= k <= n,
                n == self.hostiles@.len(),
                self.wf(),
                ppos == old(self).player.pos,
                ppos.in_bounds(POS_LIMIT as int),
                forall|i: int| 0 <= i < k ==> self.hostiles@[i] == target_step_spec(
                    #[trigger] old(self).hostiles@[i],
                    ppos,
                ),
                forall|i: int| k <= i < n ==> self.hostiles@[i] == #[trigger] old(self).hostiles@[i],
                *self == (World { hostiles: self.hostiles, ..*old(self) }),
            decreases n - k,
        {
            let h = self.hostiles[k];
            let stepped = target_step(&h, ppos);
            self.hostiles[k] = stepped;
            proof {
                assert forall|i: int, j: int| 0 <= i < j < self.hostiles@.len() implies (
                #[trigger] self.hostiles@[i]).id != (#[trigger] self.hostiles@[j]).id by {
                    assert(self.hostiles@[i].id == old(self).hostiles@[i].id);
                    assert(self.hostiles@[j].id == old(self).hostiles@[j].id);
                }
                assert forall|i: int| 0 <= i < self.hostiles@.len() implies (
                #[trigger] self.hostiles@[i]).id < self.next_id by {
                    assert(self.hostiles@[i].id == old(self).hostiles@[i].id);
                }
            }
            k = k + 1;
        }
    }

    /// One coordinate-wise kinematic step for an actor: the velocity applied
    /// over the tick, with the result clamped into the arena's coordinate
    /// range. Stands in for the physics integrator when the simulation runs
    /// on its own.
    pub open spec fn motion_step_spec(pos: Vec3I, vel: Vec3I, delta_ms: u64) -> Vec3I {
        clamp_pos_spec(
            Vec3I {
                x: (pos.x + scale_trunc(vel.x as int, delta_ms as int, SCALE as int)) as i64,
                y: (pos.y + scale_trunc(vel.y as int, delta_ms as int, SCALE as int)) as i64,
                z: (pos.z + scale_trunc(vel.z as int, delta_ms as int, SCALE as int)) as i64,
            },
        )
    }

    /// Integrates the player's and every hostile's position from its
    /// velocity.
    pub fn motion_phase(&mut self, delta_ms: u64)
        requires
            old(self).wf(),
            delta_ms <= TICK_DELTA_MAX_MS,
        ensures
            final(self).wf(),
            final(self).player == (Player {
                pos: World::motion_step_spec(
                    old(self).player.pos,
                    old(self).player.vel,
                    delta_ms,
                ),
                ..old(self).player
            }),
            final(self).hostiles@.len() == old(self).hostiles@.len(),
            forall|i: int| 0 <= i < old(self).hostiles@.len() ==> final(self).hostiles@[i] == (
            Hostile {
                pos: World::motion_step_spec(
                    (#[trigger] old(self).hostiles@[i]).pos,
                    old(self).hostiles@[i].vel,
                    delta_ms,
                ),
                ..old(self).hostiles@[i]
            }),
            *final(self) == (World {
                player: final(self).player,
                hostiles: final(self).hostiles,
                ..*old(self)
            }),
    {
        let ppos = Self::motion_step(self.player.pos, self.player.vel, delta_ms);
        self.player = Player { pos: ppos, ..self.player };
        let n = self.hostiles.len();
        let mut k: usize = 0;
        while k < n
            invariant
                0 <= k <= n,
                n == self.hostiles@.len(),
                self.wf(),
                delta_ms <= TICK_DELTA_MAX_MS,
                forall|i: int| 0 <= i < k ==> self.hostiles@[i] == (Hostile {
                    pos: World::motion_step_spec(
                        (#[trigger] old(self).hostiles@[i]).pos,
                        old(self).hostiles@[i].vel,
                        delta_ms,
                    ),
                    ..old(self).hostiles@[i]
                }),
                forall|i: int| k <= i < n ==> self.hostiles@[i] == #[trigger] old(self).hostiles@[i],
                *self == (World {
                    player: self.player,
                    hostiles: self.hostiles,
                    ..*old(self)
                }),
                self.player == (Player {
                    pos: World::motion_step_spec(
                        old(self).player.pos,
                        old(self).player.vel,
                        delta_ms,
                    ),
                    ..old(self).player
                }),
            decreases n - k,
        {
            let h = self.hostiles[k];
            let np = Self::motion_step(h.pos, h.vel, delta_ms);
            self.hostiles[k] = Hostile { pos: np, ..h };
            proof {
                assert forall|i: int, j: int| 0 <= i < j < self.hostiles@.len() implies (
                #[trigger] self.hostiles@[i]).id != (#[trigger] self.hostiles@[j]).id by {
                    assert(self.hostiles@[i].id == old(self).hostiles@[i].id);
                    assert(self.hostiles@[j].id == old(self).hostiles@[j].id);
                }
                assert forall|i: int| 0 <= i < self.hostiles@.len() implies (
                #[trigger] self.hostiles@[i]).id < self.next_id by {
                    assert(self.hostiles@[i].id == old(self).hostiles@[i].id);
                }
            }
            k = k + 1;
        }
    }

    /// One kinematic step.
    fn motion_step(pos: Vec3I, vel: Vec3I, delta_ms: u64) -> (np: Vec3I)
        requires
            pos.in_bounds(POS_LIMIT as int),
            vel.in_bounds(VEL_LIMIT as int),
            delta_ms <= TICK_DELTA_MAX_MS,
        ensures
            np == World::motion_step_spec(pos, vel, delta_ms),
            np.in_bounds(POS_LIMIT as int),
    {
        proof {
            assert(-(1000 * 2_000_000) <= vel.x * delta_ms <= 1000 * 2_000_000 && -(1000
                * 2_000_000) <= vel.y * delta_ms <= 1000 * 2_000_000 && -(1000 * 2_000_000)
                <= vel.z * delta_ms <= 1000 * 2_000_000) by (nonlinear_arith)
                requires
                    -200_000 <= vel.x <= 200_000,
                    -200_000 <= vel.y <= 200_000,
                    -200_000 <= vel.z <= 200_000,
                    0 <= delta_ms <= 10_000,
            ;
            lemma_trunc_div_bound(vel.x * delta_ms, SCALE as int, STEP_LIMIT as int);
            lemma_trunc_div_bound(vel.y * delta_ms, SCALE as int, STEP_LIMIT as int);
            lemma_trunc_div_bound(vel.z * delta_ms, SCALE as int, STEP_LIMIT as int);
        }
        let sx = scale_trunc_exec(vel.x, delta_ms as i64, SCALE);
        let sy = scale_trunc_exec(vel.y, delta_ms as i64, SCALE);
        let sz = scale_trunc_exec(vel.z, delta_ms as i64, SCALE);
        clamp_pos(Vec3I { x: pos.x + sx, y: pos.y + sy, z: pos.z + sz })
    }

    /// Whether a hostile's melee proximity sphere overlaps the player: the
    /// deterministic, order-stable overlap test the tick feeds to the melee
    /// phase. Like every overlap test here, it measures horizontal distance:
    /// colliders are modeled as full-height vertical capsules, so only
    /// horizontal separation decides an overlap.
    pub open spec fn melee_overlap_spec(h: Hostile, ppos: Vec3I) -> bool {
        spec_planar_dist_sq(h.pos, ppos) <= (stats_spec(h.archetype).melee_range_mm
            + PLAYER_RADIUS_MM) * (stats_spec(h.archetype).melee_range_mm + PLAYER_RADIUS_MM)
    }

    /// Computes the melee proximity answer for every hostile.
    pub fn compute_melee_overlaps(&self) -> (v: Vec<bool>)
        requires
            self.wf(),
        ensures
            v@.len() == self.hostiles@.len(),
            forall|i: int| 0 <= i < v@.len() ==> v@[i] == World::melee_overlap_spec(
                #[trigger] self.hostiles@[i],
                self.player.pos,
            ),
    {
        let ppos = self.player.pos;
        let n = self.hostiles.len();
        let mut v: Vec<bool> = Vec::new();
        let mut k: usize = 0;
        while k < n
            invariant
                0 <= k <= n,
                n == self.hostiles@.len(),
                self.wf(),
                ppos == self.player.pos,
                v@.len() == k,
                forall|i: int| 0 <= i < k ==> v@[i] == World::melee_overlap_spec(
                    #[trigger] self.hostiles@[i],
                    ppos,
                ),
            decreases n - k,
        {
            let h = self.hostiles[k];
            let s = stats(h.archetype);
            let reach: i64 = s.melee_range_mm + PLAYER_RADIUS_MM;
            proof {
                assert(reach * reach <= 20_000_000_000 && reach * reach >= 0) by (nonlinear_arith)
                    requires
                        0 <= reach <= 101_000,
                ;
            }
            let r2: i64 = reach * reach;
            let d2 = planar_dist_sq(h.pos, ppos);
            v.push(d2 <= r2 as u64);
            k = k + 1;
        }
        v
    }

    /// The strikes a melee pass over the hostiles produces, in store order:
    /// one damage event against the player for every melee-capable hostile
    /// whose cycle triggers this tick.
    pub open spec fn melee_events(
        hs: Seq<Hostile>,
        overlaps: Seq<bool>,
        delta_ms: u64,
        ppos: Vec3I,
    ) -> Seq<DamageEvent>
        decreases hs.len(),
    {
        if hs.len() == 0 {
            Seq::empty()
        } else {
            let rest = World::melee_events(hs.drop_last(), overlaps.drop_last(), delta_ms, ppos);
            let h = hs.last();
            if melee_step_spec(h, overlaps.last(), delta_ms).1 {
                rest + seq![
                    DamageEvent {
                        target: PLAYER_ID,
                        amount: stats_spec(h.archetype).melee_damage,
                        pos: ppos,
                    },
                ]
            } else {
                rest
            }
        }
    }

    /// The combat pass for melee: every melee-capable hostile runs its cycle
    /// against the given proximity answers; strikes are deferred as damage
    /// events against the player, applied later by the ledger.
    pub fn melee_phase(&mut self, delta_ms: u64, overlaps: &Vec<bool>)
        requires
            old(self).wf(),
            delta_ms <= TICK_DELTA_MAX_MS,
            overlaps@.len() == old(self).hostiles@.len(),
        ensures
            final(self).wf(),
            final(self).hostiles@.len() == old(self).hostiles@.len(),
            forall|i: int| 0 <= i < old(self).hostiles@.len() ==> final(self).hostiles@[i]
                == melee_step_spec(
                #[trigger] old(self).hostiles@[i],
                overlaps@[i],
                delta_ms,
            ).0,
            final(self).pending@ == old(self).pending@ + World::melee_events(
                old(self).hostiles@,
                overlaps@,
                delta_ms,
                old(self).player.pos,
            ),
            *final(self) == (World {
                hostiles: final(self).hostiles,
                pending: final(self).pending,
                ..*old(self)
            }),
    {
        let ppos = self.player.pos;
        let n = self.hostiles.len();
        let mut k: usize = 0;
        proof {
            assert(old(self).hostiles@.take(0) =~= Seq::<Hostile>::empty());
            assert(overlaps@.take(0) =~= Seq::<bool>::empty());
            assert(self.pending@ =~= old(self).pending@ + World::melee_events(
                old(self).hostiles@.take(0),
                overlaps@.take(0),
                delta_ms,
                ppos,
            ));
        }
        while k < n
            invariant
                0 <= k <= n,
                n == self.hostiles@.len(),
                n == old(self).hostiles@.len(),
                self.wf(),
                delta_ms <= TICK_DELTA_MAX_MS,
                overlaps@.len() == n,
                ppos == old(self).player.pos,
                forall|i: int| 0 <= i < k ==> self.hostiles@[i] == melee_step_spec(
                    #[trigger] old(self).hostiles@[i],
                    overlaps@[i],
                    delta_ms,
                ).0,
                forall|i: int| k <= i < n ==> self.hostiles@[i] == #[trigger] old(self).hostiles@[i],
                self.pending@ == old(self).pending@ + World::melee_events(
                    old(self).hostiles@.take(k as int),
                    overlaps@.take(k as int),
                    delta_ms,
                    ppos,
                ),
                *self == (World {
                    hostiles: self.hostiles,
                    pending: self.pending,
                    ..*old(self)
                }),
            decreases n - k,
        {
            let h = self.hostiles[k];
            let engaged = overlaps[k];
            let (nh, struck) = melee_step(&h, engaged, delta_ms);
            self.hostiles[k] = nh;
            let ghost before = self.pending@;
            if struck {
                let s = stats(h.archetype);
                self.pending.push(
                    DamageEvent { target: PLAYER_ID, amount: s.melee_damage, pos: ppos },
                );
            }
            proof {
                let hs = old(self).hostiles@;
                assert(hs.take(k + 1).drop_last() =~= hs.take(k as int));
                assert(overlaps@.take(k + 1).drop_last() =~= overlaps@.take(k as int));
                assert(hs.take(k + 1).last() == hs[k as int]);
                assert(overlaps@.take(k + 1).last() == overlaps@[k as int]);
                assert(self.pending@ =~= old(self).pending@ + World::melee_events(
                    hs.take(k + 1),
                    overlaps@.take(k + 1),
                    delta_ms,
                    ppos,
                ));
                assert forall|i: int, j: int| 0 <= i < j < self.hostiles@.len() implies (
                #[trigger] self.hostiles@[i]).id != (#[trigger] self.hostiles@[j]).id by {
                    assert(self.hostiles@[i].id == old(self).hostiles@[i].id);
                    assert(self.hostiles@[j].id == old(self).hostiles@[j].id);
                }
                assert forall|i: int| 0 <= i < self.hostiles@.len() implies (
                #[trigger] self.hostiles@[i]).id < self.next_id by {
                    assert(self.hostiles@[i].id == old(self).hostiles@[i].id);
                }
            }
            k = k + 1;
        }
        proof {
            assert(old(self).hostiles@.take(n as int) =~= old(self).hostiles@);
            assert(overlaps@.take(n as int) =~= overlaps@);
        }
    }

    /// Where a hostile's volley launches from: enemies fire from their
    /// center, bosses from one unit below it (clamped into the coordinate
    /// range, like every position).
    pub open spec fn volley_origin(h: Hostile) -> Vec3I {
        match h.archetype {
            Archetype::Boss(_) => clamp_pos_spec(
                Vec3I { x: h.pos.x, y: (h.pos.y - BOSS_MUZZLE_DROP_MM) as i64, z: h.pos.z },
            ),
            Archetype::Enemy(_) => h.pos,
        }
    }

    /// The projectiles one volley creates: one per direction, all fired from
    /// `origin` with the shooter's id cached for collision filtering.
    pub open spec fn volley_from(
        origin: Vec3I,
        shooter: u64,
        from_player: bool,
        speed_mm_s: i64,
        dirs: Seq<Vec3I>,
    ) -> Seq<Projectile>
        decreases dirs.len(),
    {
        if dirs.len() == 0 {
            Seq::empty()
        } else {
            World::volley_from(origin, shooter, from_player, speed_mm_s, dirs.drop_last()).push(
                Projectile::spec_new(origin, dirs.last(), shooter, from_player, speed_mm_s),
            )
        }
    }

    /// The projectiles a ranged pass over the hostiles creates, in store
    /// order.
    pub open spec fn ranged_spawns(
        hs: Seq<Hostile>,
        ppos: Vec3I,
        choices: Seq<u64>,
        delta_ms: u64,
    ) -> Seq<Projectile>
        decreases hs.len(),
    {
        if hs.len() == 0 {
            Seq::empty()
        } else {
            World::ranged_spawns(hs.drop_last(), ppos, choices.drop_last(), delta_ms)
                + World::volley_from(
                World::volley_origin(hs.last()),
                hs.last().id,
                false,
                SHOT_SPEED_HOSTILE_MM_S,
                ranged_step_spec(hs.last(), ppos, choices.last(), delta_ms).1,
            )
        }
    }

    /// Builds one volley: a projectile per direction.
    fn build_volley(
        origin: Vec3I,
        shooter: u64,
        from_player: bool,
        speed_mm_s: i64,
        dirs: &Vec<Vec3I>,
    ) -> (v: Vec<Projectile>)
        requires
            origin.in_bounds(POS_LIMIT as int),
            1 <= speed_mm_s <= crate::projectile::SHOT_SPEED_MAX_MM_S,
            forall|i: int| 0 <= i < dirs@.len() ==> (#[trigger] dirs@[i]).in_bounds(
                DIR_LIMIT as int,
            ),
        ensures
            v@ == World::volley_from(origin, shooter, from_player, speed_mm_s, dirs@),
            forall|i: int| 0 <= i < v@.len() ==> (#[trigger] v@[i]).wf() && v@[i].alive,
    {
        let m = dirs.len();
        let mut v: Vec<Projectile> = Vec::new();
        let mut j: usize = 0;
        proof {
            assert(dirs@.take(0) =~= Seq::<Vec3I>::empty());
        }
        while j < m
            invariant
                0 <= j <= m,
                m == dirs@.len(),
                origin.in_bounds(POS_LIMIT as int),
                1 <= speed_mm_s <= crate::projectile::SHOT_SPEED_MAX_MM_S,
                forall|i: int| 0 <= i < dirs@.len() ==> (#[trigger] dirs@[i]).in_bounds(
                    DIR_LIMIT as int,
                ),
                v@ == World::volley_from(origin, shooter, from_player, speed_mm_s, dirs@.take(j as int)),
                forall|i: int| 0 <= i < v@.len() ==> (#[trigger] v@[i]).wf() && v@[i].alive,
            decreases m - j,
        {
            let d = dirs[j];
            let pr = Projectile {
                origin,
                pos: origin,
                dir: d,
                shooter,
                from_player,
                speed_mm_s,
                max_range_mm: crate::projectile::SHOT_RANGE_MM,
                alive: true,
            };
            proof {
                crate::vecmath::lemma_dist_sq_self_zero(origin);
                assert(pr.wf());
                assert(dirs@.take(j + 1).drop_last() =~= dirs@.take(j as int));
                assert(dirs@.take(j + 1).last() == dirs@[j as int]);
            }
            v.push(pr);
            proof {
                assert(v@ =~= World::volley_from(origin, shooter, from_player, speed_mm_s, dirs@.take(j + 1)));
            }
            j = j + 1;
        }
        proof {
            assert(dirs@.take(m as int) =~= dirs@);
        }
        v
    }

    /// The combat pass for ranged attacks, with the mixed-pattern draws given
    /// explicitly: every armed hostile runs its ranged cycle and, when it
    /// triggers, launches its pattern at the player as new projectiles.
    pub fn ranged_phase_with(&mut self, delta_ms: u64, choices: &Vec<u64>)
        requires
            old(self).wf(),
            delta_ms <= TICK_DELTA_MAX_MS,
            choices@.len() == old(self).hostiles@.len(),
            forall|i: int| 0 <= i < choices@.len() ==> #[trigger] choices@[i] < 3,
        ensures
            final(self).wf(),
            final(self).hostiles@.len() == old(self).hostiles@.len(),
            forall|i: int| 0 <= i < old(self).hostiles@.len() ==> final(self).hostiles@[i]
                == ranged_step_spec(
                #[trigger] old(self).hostiles@[i],
                old(self).player.pos,
                choices@[i],
                delta_ms,
            ).0,
            final(self).projectiles@ == old(self).projectiles@ + World::ranged_spawns(
                old(self).hostiles@,
                old(self).player.pos,
                choices@,
                delta_ms,
            ),
            forall|i: int| old(self).projectiles@.len() <= i < final(self).projectiles@.len()
                ==> (#[trigger] final(self).projectiles@[i]).alive,
            *final(self) == (World {
                hostiles: final(self).hostiles,
                projectiles: final(self).projectiles,
                ..*old(self)
            }),
    {
        let ppos = self.player.pos;
        let n = self.hostiles.len();
        let mut k: usize = 0;
        proof {
            assert(old(self).hostiles@.take(0) =~= Seq::<Hostile>::empty());
            assert(choices@.take(0) =~= Seq::<u64>::empty());
            assert(self.projectiles@ =~= old(self).projectiles@ + World::ranged_spawns(
                old(self).hostiles@.take(0),
                ppos,
                choices@.take(0),
                delta_ms,
            ));
        }
        while k < n
            invariant
                0 <= k <= n,
                n == self.hostiles@.len(),
                n == old(self).hostiles@.len(),
                self.wf(),
                delta_ms <= TICK_DELTA_MAX_MS,
                choices@.len() == n,
                forall|i: int| 0 <= i < choices@.len() ==> #[trigger] choices@[i] < 3,
                ppos == old(self).player.pos,
                forall|i: int| 0 <= i < k ==> self.hostiles@[i] == ranged_step_spec(
                    #[trigger] old(self).hostiles@[i],
                    ppos,
                    choices@[i],
                    delta_ms,
                ).0,
                forall|i: int| k <= i < n ==> self.hostiles@[i] == #[trigger] old(self).hostiles@[i],
                self.projectiles@ == old(self).projectiles@ + World::ranged_spawns(
                    old(self).hostiles@.take(k as int),
                    ppos,
                    choices@.take(k as int),
                    delta_ms,
                ),
                forall|i: int| old(self).projectiles@.len() <= i < self.projectiles@.len() ==> (
                #[trigger] self.projectiles@[i]).alive,
                *self == (World {
                    hostiles: self.hostiles,
                    projectiles: self.projectiles,
                    ..*old(self)
                }),
            decreases n - k,
        {
            let h = self.hostiles[k];
            let (nh, dirs) = ranged_step(&h, ppos, choices[k], delta_ms);
            self.hostiles[k] = nh;
            let origin = match h.archetype {
                Archetype::Boss(_) => clamp_pos(
                    Vec3I { x: h.pos.x, y: h.pos.y - BOSS_MUZZLE_DROP_MM, z: h.pos.z },
                ),
                Archetype::Enemy(_) => h.pos,
            };
            let mut volley = Self::build_volley(origin, h.id, false, SHOT_SPEED_HOSTILE_MM_S, &dirs);
            proof {
                assert(origin == World::volley_origin(h));
                assert(self.projectiles@ + volley@ =~= old(self).projectiles@
                    + World::ranged_spawns(
                    old(self).hostiles@.take(k as int),
                    ppos,
                    choices@.take(k as int),
                    delta_ms,
                ) + World::volley_from(origin, h.id, false, SHOT_SPEED_HOSTILE_MM_S, dirs@));
            }
            self.projectiles.append(&mut volley);
            proof {
                let hs = old(self).hostiles@;
                assert(hs.take(k + 1).drop_last() =~= hs.take(k as int));
                assert(choices@.take(k + 1).drop_last() =~= choices@.take(k as int));
                assert(hs.take(k + 1).last() == hs[k as int]);
                assert(choices@.take(k + 1).last() == choices@[k as int]);
                assert(self.projectiles@ =~= old(self).projectiles@ + World::ranged_spawns(
                    hs.take(k + 1),
                    ppos,
                    choices@.take(k + 1),
                    delta_ms,
                ));
                assert forall|i: int, j2: int| 0 <= i < j2 < self.hostiles@.len() implies (
                #[trigger] self.hostiles@[i]).id != (#[trigger] self.hostiles@[j2]).id by {
                    assert(self.hostiles@[i].id == old(self).hostiles@[i].id);
                    assert(self.hostiles@[j2].id == old(self).hostiles@[j2].id);
                }
                assert forall|i: int| 0 <= i < self.hostiles@.len() implies (
                #[trigger] self.hostiles@[i]).id < self.next_id by {
                    assert(self.hostiles@[i].id == old(self).hostiles@[i].id);
                }
            }
            k = k + 1;
        }
        proof {
            assert(old(self).hostiles@.take(n as int) =~= old(self).hostiles@);
            assert(choices@.take(n as int) =~= choices@);
        }
    }

    /// The combat pass for ranged attacks: draws the mixed-pattern choices
    /// and runs [`World::ranged_phase_with`]. Whatever the draws, every armed
    /// hostile steps its cycle and every triggered volley lands in the store.
    pub fn ranged_phase(&mut self, delta_ms: u64)
        requires
            old(self).wf(),
            delta_ms <= TICK_DELTA_MAX_MS,
        ensures
            final(self).wf(),
            final(self).hostiles@.len() == old(self).hostiles@.len(),
            *final(self) == (World {
                hostiles: final(self).hostiles,
                projectiles: final(self).projectiles,
                ..*old(self)
            }),
            forall|i: int| old(self).projectiles@.len() <= i < final(self).projectiles@.len()
                ==> (#[trigger] final(self).projectiles@[i]).alive,
            exists|choices: Seq<u64>|
                {
                    &&& choices.len() == old(self).hostiles@.len()
                    &&& (forall|i: int| 0 <= i < choices.len() ==> #[trigger] choices[i] < 3)
                    &&& (forall|i: int| 0 <= i < old(self).hostiles@.len() ==> final(self).hostiles@[i] == ranged_step_spec(
                        #[trigger] old(self).hostiles@[i],
                        old(self).player.pos,
                        choices[i],
                        delta_ms,
                    ).0)
                    &&& final(self).projectiles@ == old(self).projectiles@
                        + World::ranged_spawns(
                        old(self).hostiles@,
                        old(self).player.pos,
                        choices,
                        delta_ms,
                    )
                },
    {
        let n = self.hostiles.len();
        let mut choices: Vec<u64> = Vec::new();
        let mut k: usize = 0;
        while k < n
            invariant
                0 <= k <= n,
                choices@.len() == k,
                forall|i: int| 0 <= i < choices@.len() ==> #[trigger] choices@[i] < 3,
            decreases n - k,
        {
            choices.push(random_below(3));
            k = k + 1;
        }
        self.ranged_phase_with(delta_ms, &choices);
        proof {
            assert(choices@.len() == old(self).hostiles@.len());
        }
    }

    /// How close a projectile must pass to a hostile's center to strike it,
    /// squared.
    pub open spec fn hostile_hit_reach_sq(h: Hostile) -> int {
        (stats_spec(h.archetype).radius_mm + SHOT_RADIUS_MM) * (stats_spec(h.archetype).radius_mm
            + SHOT_RADIUS_MM)
    }

    /// The first hostile, in store order, whose capsule is within striking
    /// reach of `pos` horizontally, skipping the shooter: the deterministic,
    /// order-stable shape-cast answer.
    pub open spec fn first_hostile_hit(hs: Seq<Hostile>, pos: Vec3I, shooter: u64) -> Option<
        u64,
    >
        decreases hs.len(),
    {
        if hs.len() == 0 {
            None
        } else if hs[0].id != shooter && spec_planar_dist_sq(hs[0].pos, pos)
            <= World::hostile_hit_reach_sq(hs[0]) {
            Some(hs[0].id)
        } else {
            World::first_hostile_hit(hs.skip(1), pos, shooter)
        }
    }

    /// What a live projectile strikes this tick, tested at its stepped
    /// position with its shooter excluded: the player first, then the
    /// hostiles in store order.
    pub open spec fn hit_spec(
        player_pos: Vec3I,
        hs: Seq<Hostile>,
        p: Projectile,
        delta_ms: u64,
    ) -> Option<u64> {
        if !p.alive {
            None
        } else {
            let np = p.spec_step_pos(delta_ms);
            if p.shooter != PLAYER_ID && spec_planar_dist_sq(player_pos, np) <= (PLAYER_RADIUS_MM
                + SHOT_RADIUS_MM) * (PLAYER_RADIUS_MM + SHOT_RADIUS_MM) {
                Some(PLAYER_ID)
            } else {
                World::first_hostile_hit(hs, np, p.shooter)
            }
        }
    }

    /// Computes the shape-cast answer for every projectile.
    pub fn compute_projectile_hits(&self, delta_ms: u64) -> (v: Vec<Option<u64>>)
        requires
            self.wf(),
            delta_ms <= TICK_DELTA_MAX_MS,
        ensures
            v@.len() == self.projectiles@.len(),
            forall|i: int| 0 <= i < v@.len() ==> v@[i] == World::hit_spec(
                self.player.pos,
                self.hostiles@,
                #[trigger] self.projectiles@[i],
                delta_ms,
            ),
    {
        let ppos = self.player.pos;
        let n = self.projectiles.len();
        let mut v: Vec<Option<u64>> = Vec::new();
        let mut k: usize = 0;
        while k < n
            invariant
                0 <= k <= n,
                n == self.projectiles@.len(),
                self.wf(),
                delta_ms <= TICK_DELTA_MAX_MS,
                ppos == self.player.pos,
                v@.len() == k,
                forall|i: int| 0 <= i < k ==> v@[i] == World::hit_spec(
                    ppos,
                    self.hostiles@,
                    #[trigger] self.projectiles@[i],
                    delta_ms,
                ),
            decreases n - k,
        {
            let p = self.projectiles[k];
            if !p.alive {
                v.push(None);
            } else {
                let np = p.step_pos(delta_ms);
                let pd2 = planar_dist_sq(ppos, np);
                proof {
                    assert((PLAYER_RADIUS_MM + SHOT_RADIUS_MM) * (PLAYER_RADIUS_MM
                        + SHOT_RADIUS_MM) == 1_210_000);
                }
                if p.shooter != PLAYER_ID && pd2 <= 1_210_000u64 {
                    v.push(Some(PLAYER_ID));
                } else {
                    v.push(Self::first_hit(&self.hostiles, np, p.shooter));
                }
            }
            k = k + 1;
        }
        v
    }

    /// Walks the hostiles in store order and returns the first within
    /// striking reach.
    fn first_hit(hs: &Vec<Hostile>, pos: Vec3I, shooter: u64) -> (r: Option<u64>)
        requires
            forall|i: int| 0 <= i < hs@.len() ==> (#[trigger] hs@[i]).wf(),
            pos.in_bounds(PROJ_POS_LIMIT as int),
        ensures
            r == World::first_hostile_hit(hs@, pos, shooter),
    {
        let n = hs.len();
        let mut j: usize = 0;
        proof {
            assert(hs@.skip(0) =~= hs@);
        }
        while j < n
            invariant
                0 <= j <= n,
                n == hs@.len(),
                forall|i: int| 0 <= i < hs@.len() ==> (#[trigger] hs@[i]).wf(),
                pos.in_bounds(PROJ_POS_LIMIT as int),
                World::first_hostile_hit(hs@, pos, shooter) == World::first_hostile_hit(
                    hs@.skip(j as int),
                    pos,
                    shooter,
                ),
            decreases n - j,
        {
            let h = hs[j];
            let s = stats(h.archetype);
            let reach: i64 = s.radius_mm + SHOT_RADIUS_MM;
            proof {
                assert(reach * reach <= 20_000_000_000 && reach * reach >= 0) by (nonlinear_arith)
                    requires
                        0 <= reach <= 101_000,
                ;
            }
            let r2: i64 = reach * reach;
            let d2 = planar_dist_sq(h.pos, pos);
            if h.id != shooter && d2 <= r2 as u64 {
                return Some(h.id);
            }
            proof {
                assert(hs@.skip(j as int).skip(1) =~= hs@.skip(j as int + 1));
            }
            j = j + 1;
        }
        None
    }

    /// A projectile after one tick: it advances along its direction, and is
    /// cleared the moment it strikes anything other than its shooter or its
    /// travel distance reaches its limit. A projectile already cleared is
    /// left exactly as it is — it is never advanced again.
    pub open spec fn proj_step_spec(p: Projectile, hit: Option<u64>, delta_ms: u64) -> Projectile {
        if !p.alive {
            p
        } else {
            let np = p.spec_step_pos(delta_ms);
            let struck = match hit {
                Some(id) => id != p.shooter,
                None => false,
            };
            let expired = spec_dist_sq(p.origin, np) >= p.max_range_mm * p.max_range_mm;
            Projectile { pos: np, alive: !struck && !expired, ..p }
        }
    }

    /// The damage one projectile deals this tick: one unit against what it
    /// strikes, but only a valid target — never its own shooter, and only
    /// across factions: a hostile's projectile can damage only the player, a
    /// player's projectile only a hostile.
    pub open spec fn proj_damage_of(p: Projectile, hit: Option<u64>, delta_ms: u64) -> Option<
        DamageEvent,
    > {
        if !p.alive {
            None
        } else {
            match hit {
                Some(id) => if id != p.shooter && (if p.from_player {
                    id != PLAYER_ID
                } else {
                    id == PLAYER_ID
                }) {
                    Some(
                        DamageEvent {
                            target: id,
                            amount: SHOT_DAMAGE,
                            pos: p.spec_step_pos(delta_ms),
                        },
                    )
                } else {
                    None
                },
                None => None,
            }
        }
    }

    /// A projectile never damages the entity recorded as its shooter,
    /// whatever the collision query answers.
    pub proof fn lemma_projectile_never_damages_shooter(
        p: Projectile,
        hit: Option<u64>,
        delta_ms: u64,
    )
        ensures
            match World::proj_damage_of(p, hit, delta_ms) {
                Some(ev) => ev.target != p.shooter,
                None => true,
            },
    {
    }

    /// The damage a projectile pass deals, in store order.
    pub open spec fn proj_events(
        ps: Seq<Projectile>,
        hits: Seq<Option<u64>>,
        delta_ms: u64,
    ) -> Seq<DamageEvent>
        decreases ps.len(),
    {
        if ps.len() == 0 {
            Seq::empty()
        } else {
            let rest = World::proj_events(ps.drop_last(), hits.drop_last(), delta_ms);
            match World::proj_damage_of(ps.last(), hits.last(), delta_ms) {
                Some(ev) => rest + seq![ev],
                None => rest,
            }
        }
    }

    /// The projectile pass: every live projectile advances, then is cleared
    /// on a strike or once its travel distance reaches its limit — both
    /// checked every tick, so a projectile is removed within the tick its
    /// distance first exceeds the limit, and its one possible strike is dealt
    /// on the same tick it is cleared, never twice.
    pub fn projectile_phase(&mut self, delta_ms: u64, hits: &Vec<Option<u64>>)
        requires
            old(self).wf(),
            delta_ms <= TICK_DELTA_MAX_MS,
            hits@.len() == old(self).projectiles@.len(),
        ensures
            final(self).wf(),
            final(self).projectiles@.len() == old(self).projectiles@.len(),
            forall|i: int| 0 <= i < old(self).projectiles@.len() ==> final(self).projectiles@[i]
                == World::proj_step_spec(
                #[trigger] old(self).projectiles@[i],
                hits@[i],
                delta_ms,
            ),
            forall|i: int| 0 <= i < old(self).projectiles@.len() ==> !(#[trigger] old(self).projectiles@[i]).alive ==> final(self).projectiles@[i] == old(self).projectiles@[i],
            forall|i: int| 0 <= i < final(self).projectiles@.len() ==> (#[trigger] final(self).projectiles@[i]).alive ==> spec_dist_sq(
                final(self).projectiles@[i].origin,
                final(self).projectiles@[i].pos,
            ) < final(self).projectiles@[i].max_range_mm * final(self).projectiles@[i].max_range_mm,
            final(self).pending@ == old(self).pending@ + World::proj_events(
                old(self).projectiles@,
                hits@,
                delta_ms,
            ),
            *final(self) == (World {
                projectiles: final(self).projectiles,
                pending: final(self).pending,
                ..*old(self)
            }),
    {
        let n = self.projectiles.len();
        let mut k: usize = 0;
        proof {
            assert(old(self).projectiles@.take(0) =~= Seq::<Projectile>::empty());
            assert(hits@.take(0) =~= Seq::<Option<u64>>::empty());
            assert(self.pending@ =~= old(self).pending@ + World::proj_events(
                old(self).projectiles@.take(0),
                hits@.take(0),
                delta_ms,
            ));
        }
        while k < n
            invariant
                0 <= k <= n,
                n == self.projectiles@.len(),
                n == old(self).projectiles@.len(),
                self.wf(),
                delta_ms <= TICK_DELTA_MAX_MS,
                hits@.len() == n,
                forall|i: int| 0 <= i < k ==> self.projectiles@[i] == World::proj_step_spec(
                    #[trigger] old(self).projectiles@[i],
                    hits@[i],
                    delta_ms,
                ),
                forall|i: int| k <= i < n ==> self.projectiles@[i] == #[trigger] old(self).projectiles@[i],
                self.pending@ == old(self).pending@ + World::proj_events(
                    old(self).projectiles@.take(k as int),
                    hits@.take(k as int),
                    delta_ms,
                ),
                *self == (World {
                    projectiles: self.projectiles,
                    pending: self.pending,
                    ..*old(self)
                }),
            decreases n - k,
        {
            let p = self.projectiles[k];
            if p.alive {
                let np = p.step_pos(delta_ms);
                let hit = hits[k];
                let struck = match hit {
                    Some(id) => id != p.shooter,
                    None => false,
                };
                let d2 = dist_sq(p.origin, np);
                proof {
                    assert(p.max_range_mm * p.max_range_mm <= 1_000_000_000_000
                        && p.max_range_mm * p.max_range_mm >= 0) by (nonlinear_arith)
                        requires
                            0 <= p.max_range_mm <= 1_000_000,
                    ;
                }
                let expired = d2 >= (p.max_range_mm * p.max_range_mm) as u64;
                self.projectiles[k] = Projectile { pos: np, alive: !struck && !expired, ..p };
                if struck {
                    let id = match hit {
                        Some(id) => id,
                        None => 0,
                    };
                    let valid = if p.from_player {
                        id != PLAYER_ID
                    } else {
                        id == PLAYER_ID
                    };
                    if valid {
                        self.pending.push(
                            DamageEvent { target: id, amount: SHOT_DAMAGE, pos: np },
                        );
                    }
                }
            }
            proof {
                let ps = old(self).projectiles@;
                assert(ps.take(k + 1).drop_last() =~= ps.take(k as int));
                assert(hits@.take(k + 1).drop_last() =~= hits@.take(k as int));
                assert(ps.take(k + 1).last() == ps[k as int]);
                assert(hits@.take(k + 1).last() == hits@[k as int]);
                assert(self.pending@ =~= old(self).pending@ + World::proj_events(
                    ps.take(k + 1),
                    hits@.take(k + 1),
                    delta_ms,
                ));
            }
            k = k + 1;
        }
        proof {
            assert(old(self).projectiles@.take(n as int) =~= old(self).projectiles@);
            assert(hits@.take(n as int) =~= hits@);
        }
    }

    /// The damage amounts aimed at one target, in the order they were
    /// collected.
    pub open spec fn events_for(evs: Seq<DamageEvent>, target: u64) -> Seq<int>
        decreases evs.len(),
    {
        if evs.len() == 0 {
            Seq::empty()
        } else if evs[0].target == target {
            seq![evs[0].amount as int] + World::events_for(evs.skip(1), target)
        } else {
            World::events_for(evs.skip(1), target)
        }
    }

    /// Collected damage amounts are never negative.
    pub proof fn lemma_events_for_nonneg(evs: Seq<DamageEvent>, target: u64)
        ensures
            forall|i: int| 0 <= i < World::events_for(evs, target).len() ==> #[trigger] World::events_for(
                evs,
                target,
            )[i] >= 0,
        decreases evs.len(),
    {
        if evs.len() > 0 {
            World::lemma_events_for_nonneg(evs.skip(1), target);
            let s = World::events_for(evs, target);
            let rest = World::events_for(evs.skip(1), target);
            assert forall|i: int| 0 <= i < s.len() implies #[trigger] s[i] >= 0 by {
                if evs[0].target == target {
                    if i == 0 {
                        assert(s[i] == evs[0].amount as int);
                    } else {
                        assert(s[i] == rest[i - 1]);
                    }
                } else {
                    assert(s[i] == rest[i]);
                }
            }
        }
    }

    /// Peeling one event off the front of the pending list peels its amount
    /// off the front of its target's damage sequence and leaves every other
    /// target's sequence unchanged.
    pub proof fn lemma_events_for_step(evs: Seq<DamageEvent>, k: int, target: u64)
        requires
            0 <= k < evs.len(),
        ensures
            World::events_for(evs.skip(k), target) == if evs[k].target == target {
                seq![evs[k].amount as int] + World::events_for(evs.skip(k + 1), target)
            } else {
                World::events_for(evs.skip(k + 1), target)
            },
    {
        assert(evs.skip(k).skip(1) =~= evs.skip(k + 1));
        assert(evs.skip(k)[0] == evs[k]);
    }

    /// The ledger: applies every collected damage event in order — health
    /// clamped at zero — marks each hostile whose health reached zero for
    /// despawn, and hands the applied events back for the feedback
    /// collaborator. Applying damage to an id no longer in the world is a
    /// no-op, never an error.
    pub fn ledger_phase(&mut self) -> (out: Vec<DamageEvent>)
        requires
            old(self).wf(),
        ensures
            final(self).wf(),
            out@ == old(self).pending@,
            final(self).pending@.len() == 0,
            final(self).player == (Player {
                health: damage_fold(
                    old(self).player.health as int,
                    World::events_for(old(self).pending@, PLAYER_ID),
                ) as u32,
                ..old(self).player
            }),
            final(self).hostiles@.len() == old(self).hostiles@.len(),
            forall|i: int| 0 <= i < old(self).hostiles@.len() ==> final(self).hostiles@[i] == (
            Hostile {
                health: damage_fold(
                    (#[trigger] old(self).hostiles@[i]).health as int,
                    World::events_for(old(self).pending@, old(self).hostiles@[i].id),
                ) as u32,
                pending_despawn: old(self).hostiles@[i].pending_despawn || damage_fold(
                    old(self).hostiles@[i].health as int,
                    World::events_for(old(self).pending@, old(self).hostiles@[i].id),
                ) == 0,
                ..old(self).hostiles@[i]
            }),
            *final(self) == (World {
                player: final(self).player,
                hostiles: final(self).hostiles,
                pending: final(self).pending,
                ..*old(self)
            }),
            forall|i: int| 0 <= i < final(self).hostiles@.len() ==> (#[trigger] final(self).hostiles@[i]).pending_despawn || final(self).hostiles@[i].health > 0,
    {
        let mut evs: Vec<DamageEvent> = Vec::new();
        core::mem::swap(&mut evs, &mut self.pending);
        let m = evs.len();
        let n = self.hostiles.len();
        let mut k: usize = 0;
        proof {
            assert(evs@.skip(0) =~= evs@);
            World::lemma_events_for_nonneg(evs@, PLAYER_ID);
        }
        while k < m
            invariant
                0 <= k <= m,
                m == evs@.len(),
                evs@ == old(self).pending@,
                n == self.hostiles@.len(),
                n == old(self).hostiles@.len(),
                self.wf(),
                self.pending@.len() == 0,
                self.next_id == old(self).next_id,
                self.player == (Player { health: self.player.health, ..old(self).player }),
                damage_fold(
                    old(self).player.health as int,
                    World::events_for(evs@, PLAYER_ID),
                ) == damage_fold(
                    self.player.health as int,
                    World::events_for(evs@.skip(k as int), PLAYER_ID),
                ),
                forall|j: int| 0 <= j < n ==> self.hostiles@[j] == (Hostile {
                    health: (#[trigger] self.hostiles@[j]).health,
                    ..old(self).hostiles@[j]
                }),
                forall|j: int| 0 <= j < n ==> damage_fold(
                    (#[trigger] old(self).hostiles@[j]).health as int,
                    World::events_for(evs@, old(self).hostiles@[j].id),
                ) == damage_fold(
                    self.hostiles@[j].health as int,
                    World::events_for(evs@.skip(k as int), old(self).hostiles@[j].id),
                ),
                *self == (World {
                    player: self.player,
                    hostiles: self.hostiles,
                    pending: self.pending,
                    ..*old(self)
                }),
            decreases m - k,
        {
            let ev = evs[k];
            proof {
                World::lemma_events_for_step(evs@, k as int, PLAYER_ID);
                assert forall|j: int| 0 <= j < n implies World::events_for(
                    evs@.skip(k as int),
                    (#[trigger] old(self).hostiles@[j]).id,
                ) == (if ev.target == old(self).hostiles@[j].id {
                    seq![ev.amount as int] + World::events_for(
                        evs@.skip(k as int + 1),
                        old(self).hostiles@[j].id,
                    )
                } else {
                    World::events_for(evs@.skip(k as int + 1), old(self).hostiles@[j].id)
                }) by {
                    World::lemma_events_for_step(evs@, k as int, old(self).hostiles@[j].id);
                }
            }
            if ev.target == PLAYER_ID {
                let nh = apply_damage(self.player.health, ev.amount);
                self.player = Player { health: nh, ..self.player };
                proof {
                    assert((seq![ev.amount as int] + World::events_for(
                        evs@.skip(k as int + 1),
                        PLAYER_ID,
                    )).skip(1) =~= World::events_for(evs@.skip(k as int + 1), PLAYER_ID));
                    assert forall|j: int| 0 <= j < n implies (#[trigger] old(self).hostiles@[j]).id != PLAYER_ID by {
                        assert(old(self).hostiles@[j].wf());
                    }
                }
            } else {
                match self.find_hostile(ev.target) {
                    Some(j0) => {
                        let h = self.hostiles[j0];
                        let nh = apply_damage(h.health, ev.amount);
                        self.hostiles[j0] = Hostile { health: nh, ..h };
                        proof {
                            assert((seq![ev.amount as int] + World::events_for(
                                evs@.skip(k as int + 1),
                                ev.target,
                            )).skip(1) =~= World::events_for(evs@.skip(k as int + 1), ev.target));
                            assert forall|j: int, j2: int| 0 <= j < j2 < n implies (
                            #[trigger] self.hostiles@[j]).id != (
                            #[trigger] self.hostiles@[j2]).id by {
                                assert(self.hostiles@[j].id == old(self).hostiles@[j].id);
                                assert(self.hostiles@[j2].id == old(self).hostiles@[j2].id);
                            }
                            assert forall|j: int| 0 <= j < n && j != j0 implies (
                            #[trigger] old(self).hostiles@[j]).id != ev.target by {
                                if j < j0 {
                                    assert(old(self).hostiles@[j].id != old(self).hostiles@[j0 as int].id);
                                } else {
                                    assert(old(self).hostiles@[j0 as int].id != old(self).hostiles@[j].id);
                                }
                            }
                        }
                    },
                    None => {
                    },
                }
            }
            k = k + 1;
        }
        proof {
            assert(evs@.skip(m as int) =~= Seq::<DamageEvent>::empty());
            World::lemma_events_for_nonneg(evs@, PLAYER_ID);
            crate::health::lemma_damage_fold_bounds(
                old(self).player.health as int,
                World::events_for(evs@, PLAYER_ID),
            );
            assert forall|j: int| 0 <= j < n implies 0 <= damage_fold(
                (#[trigger] old(self).hostiles@[j]).health as int,
                World::events_for(evs@, old(self).hostiles@[j].id),
            ) <= old(self).hostiles@[j].health by {
                World::lemma_events_for_nonneg(evs@, old(self).hostiles@[j].id);
                crate::health::lemma_damage_fold_bounds(
                    old(self).hostiles@[j].health as int,
                    World::events_for(evs@, old(self).hostiles@[j].id),
                );
            }
        }
        let mut j: usize = 0;
        while j < n
            invariant
                0 <= j <= n,
                n == self.hostiles@.len(),
                n == old(self).hostiles@.len(),
                self.wf(),
                forall|i: int| j <= i < n ==> self.hostiles@[i] == (Hostile {
                    pending_despawn: old(self).hostiles@[i].pending_despawn,
                    ..(#[trigger] self.hostiles@[i])
                }),
                forall|i: int| 0 <= i < j ==> self.hostiles@[i] == (Hostile {
                    pending_despawn: old(self).hostiles@[i].pending_despawn || (
                    #[trigger] self.hostiles@[i]).health == 0,
                    ..self.hostiles@[i]
                }),
                forall|i: int| 0 <= i < n ==> (#[trigger] self.hostiles@[i]).health
                    == damage_fold(
                    old(self).hostiles@[i].health as int,
                    World::events_for(evs@, old(self).hostiles@[i].id),
                ),
                forall|i: int| 0 <= i < n ==> self.hostiles@[i] == (Hostile {
                    health: (#[trigger] self.hostiles@[i]).health,
                    pending_despawn: self.hostiles@[i].pending_despawn,
                    ..old(self).hostiles@[i]
                }),
                self.pending@.len() == 0,
                self.player == (Player {
                    health: damage_fold(
                        old(self).player.health as int,
                        World::events_for(evs@, PLAYER_ID),
                    ) as u32,
                    ..old(self).player
                }),
                *self == (World {
                    player: self.player,
                    hostiles: self.hostiles,
                    pending: self.pending,
                    ..*old(self)
                }),
            decreases n - j,
        {
            let h = self.hostiles[j];
            if h.health == 0 {
                self.hostiles[j] = Hostile { pending_despawn: true, ..h };
            }
            proof {
                assert forall|i: int, j2: int| 0 <= i < j2 < n implies (
                #[trigger] self.hostiles@[i]).id != (#[trigger] self.hostiles@[j2]).id by {
                    assert(self.hostiles@[i].id == old(self).hostiles@[i].id);
                    assert(self.hostiles@[j2].id == old(self).hostiles@[j2].id);
                }
                assert forall|i: int| 0 <= i < n implies (#[trigger] self.hostiles@[i]).id
                    < self.next_id by {
                    assert(self.hostiles@[i].id == old(self).hostiles@[i].id);
                }
            }
            j = j + 1;
        }
        evs
    }

    /// The removal sweep: takes every hostile marked for despawn and every
    /// cleared projectile out of the world, in one pass at the end of the
    /// tick. Despawning is idempotent — what is already gone is simply not
    /// there to remove.
    pub fn removal_phase(&mut self)
        requires
            old(self).wf(),
        ensures
            final(self).wf(),
            final(self).hostiles@ == old(self).hostiles@.filter(
                |h: Hostile| !h.pending_despawn,
            ),
            final(self).projectiles@ == old(self).projectiles@.filter(|p: Projectile| p.alive),
            *final(self) == (World {
                hostiles: final(self).hostiles,
                projectiles: final(self).projectiles,
                ..*old(self)
            }),
            forall|i: int| 0 <= i < final(self).hostiles@.len() ==> !(#[trigger] final(self).hostiles@[i]).pending_despawn,
            forall|i: int| 0 <= i < final(self).projectiles@.len() ==> (#[trigger] final(self).projectiles@[i]).alive,
            (forall|j: int| 0 <= j < old(self).hostiles@.len() ==> (#[trigger] old(self).hostiles@[j]).pending_despawn || old(self).hostiles@[j].health > 0)
                ==> forall|i: int| 0 <= i < final(self).hostiles@.len() ==> (#[trigger] final(self).hostiles@[i]).health > 0,
    {
        let n = self.hostiles.len();
        let mut keep: Vec<Hostile> = Vec::new();
        let mut k: usize = 0;
        proof {
            assert(old(self).hostiles@.take(0) =~= Seq::<Hostile>::empty());
            assert(keep@ =~= old(self).hostiles@.take(0).filter(
                |h: Hostile| !h.pending_despawn,
            ));
        }
        while k < n
            invariant
                0 <= k <= n,
                n == self.hostiles@.len(),
                self.hostiles@ == old(self).hostiles@,
                self.wf(),
                keep@ == old(self).hostiles@.take(k as int).filter(
                    |h: Hostile| !h.pending_despawn,
                ),
                forall|a: int| 0 <= a < keep@.len() ==> exists|i: int|
                    0 <= i < k && #[trigger] keep@[a] == old(self).hostiles@[i],
                forall|a: int, b: int| 0 <= a < b < keep@.len() ==> (#[trigger] keep@[a]).id != (
                #[trigger] keep@[b]).id,
                forall|a: int| 0 <= a < keep@.len() ==> !(#[trigger] keep@[a]).pending_despawn,
            decreases n - k,
        {
            let h = self.hostiles[k];
            proof {
                assert(old(self).hostiles@.take(k + 1) =~= old(self).hostiles@.take(
                    k as int,
                ).push(old(self).hostiles@[k as int]));
                old(self).hostiles@.take(k as int).lemma_filter_push(
                    old(self).hostiles@[k as int],
                    |h: Hostile| !h.pending_despawn,
                );
            }
            if !h.pending_despawn {
                let ghost before = keep@;
                keep.push(h);
                proof {
                    assert forall|a: int| 0 <= a < keep@.len() implies exists|i: int|
                        0 <= i < k + 1 && #[trigger] keep@[a] == old(self).hostiles@[i] by {
                        if a < before.len() {
                            let i = choose|i: int|
                                0 <= i < k && #[trigger] before[a] == old(self).hostiles@[i];
                            assert(keep@[a] == old(self).hostiles@[i]);
                        } else {
                            assert(keep@[a] == old(self).hostiles@[k as int]);
                        }
                    }
                    assert forall|a: int, b: int| 0 <= a < b < keep@.len() implies (
                    #[trigger] keep@[a]).id != (#[trigger] keep@[b]).id by {
                        if b == keep@.len() - 1 {
                            let i = choose|i: int|
                                0 <= i < k && #[trigger] before[a] == old(self).hostiles@[i];
                            assert(old(self).hostiles@[i].id != old(self).hostiles@[k as int].id);
                        }
                    }
                }
            }
            k = k + 1;
        }
        proof {
            assert(old(self).hostiles@.take(n as int) =~= old(self).hostiles@);
            assert forall|a: int| 0 <= a < keep@.len() implies (#[trigger] keep@[a]).wf()
                && keep@[a].id < old(self).next_id by {
                let i = choose|i: int|
                    0 <= i < n && #[trigger] keep@[a] == old(self).hostiles@[i];
                assert(old(self).hostiles@[i].wf());
            }
            if forall|j: int| 0 <= j < old(self).hostiles@.len() ==> (#[trigger] old(self).hostiles@[j]).pending_despawn || old(self).hostiles@[j].health > 0 {
                assert forall|a: int| 0 <= a < keep@.len() implies (#[trigger] keep@[a]).health > 0 by {
                    let i = choose|i: int|
                        0 <= i < n && #[trigger] keep@[a] == old(self).hostiles@[i];
                    assert(old(self).hostiles@[i].pending_despawn || old(self).hostiles@[i].health > 0);
                }
            }
        }
        self.hostiles = keep;
        let np = self.projectiles.len();
        let mut keep_p: Vec<Projectile> = Vec::new();
        let mut kp: usize = 0;
        proof {
            assert(old(self).projectiles@.take(0) =~= Seq::<Projectile>::empty());
            assert(keep_p@ =~= old(self).projectiles@.take(0).filter(|p: Projectile| p.alive));
        }
        while kp < np
            invariant
                0 <= kp <= np,
                np == self.projectiles@.len(),
                self.projectiles@ == old(self).projectiles@,
                forall|i: int| 0 <= i < self.projectiles@.len() ==> (
                #[trigger] self.projectiles@[i]).wf(),
                keep_p@ == old(self).projectiles@.take(kp as int).filter(
                    |p: Projectile| p.alive,
                ),
                forall|i: int| 0 <= i < keep_p@.len() ==> (#[trigger] keep_p@[i]).wf() && keep_p@[i].alive,
            decreases np - kp,
        {
            let p = self.projectiles[kp];
            proof {
                assert(old(self).projectiles@.take(kp + 1) =~= old(self).projectiles@.take(
                    kp as int,
                ).push(old(self).projectiles@[kp as int]));
                old(self).projectiles@.take(kp as int).lemma_filter_push(
                    old(self).projectiles@[kp as int],
                    |p: Projectile| p.alive,
                );
            }
            if p.alive {
                keep_p.push(p);
            }
            kp = kp + 1;
        }
        proof {
            assert(old(self).projectiles@.take(np as int) =~= old(self).projectiles@);
        }
        self.projectiles = keep_p;
    }

    /// What one pickup relocation promises of the samples it drew: the
    /// pickup stands on the chosen sample at pickup height, and whenever any
    /// sample kept the minimum distance from the player, the chosen one
    /// does.
    pub open spec fn pickup_spawn_ok(
        samples: Seq<(i64, i64)>,
        ppos: Vec3I,
        pk: Option<Pickup>,
    ) -> bool {
        &&& samples.len() == PICKUP_ATTEMPTS
        &&& (forall|i: int| 0 <= i < samples.len() ==> -PICKUP_BOX_MM <= (
        #[trigger] samples[i]).0 <= PICKUP_BOX_MM && -PICKUP_BOX_MM <= samples[i].1
            <= PICKUP_BOX_MM)
        &&& pk == Some(
            Pickup {
                pos: Vec3I {
                    x: chosen_sample(samples, ppos).0,
                    y: PICKUP_HEIGHT_MM,
                    z: chosen_sample(samples, ppos).1,
                },
            },
        )
        &&& ((exists|i: int|
            0 <= i < samples.len() && crate::pickup::sample_ok(#[trigger] samples[i], ppos))
            ==> crate::pickup::sample_ok(chosen_sample(samples, ppos), ppos))
    }

    /// The pickup relocation pass: each time the pickup timer fires, the old
    /// pickup (if any) despawns and a fresh one lands on a sampled ground
    /// point, keeping the minimum distance from the player whenever any of
    /// the bounded number of samples allows it.
    pub fn pickup_phase(&mut self, delta_ms: u64)
        requires
            old(self).wf(),
            delta_ms <= TICK_DELTA_MAX_MS,
        ensures
            final(self).wf(),
            final(self).pickup_timer == old(self).pickup_timer.spec_advance(delta_ms),
            *final(self) == (World {
                pickup: final(self).pickup,
                pickup_timer: final(self).pickup_timer,
                ..*old(self)
            }),
            !old(self).pickup_timer.spec_fires(delta_ms) ==> final(self).pickup == old(self).pickup,
            old(self).pickup_timer.spec_fires(delta_ms) ==> exists|samples: Seq<(i64, i64)>|
                World::pickup_spawn_ok(samples, old(self).player.pos, final(self).pickup),
    {
        let fired = self.pickup_timer.advance_and_check(delta_ms);
        if fired {
            let mut samples: Vec<(i64, i64)> = Vec::new();
            let mut k: usize = 0;
            while k < PICKUP_ATTEMPTS
                invariant
                    0 <= k <= PICKUP_ATTEMPTS,
                    samples@.len() == k,
                    forall|i: int| 0 <= i < samples@.len() ==> -PICKUP_BOX_MM <= (
                    #[trigger] samples@[i]).0 <= PICKUP_BOX_MM && -PICKUP_BOX_MM
                        <= samples@[i].1 <= PICKUP_BOX_MM,
                decreases PICKUP_ATTEMPTS - k,
            {
                let x = random_below(14_001) as i64 - 7_000;
                let z = random_below(14_001) as i64 - 7_000;
                samples.push((x, z));
                k = k + 1;
            }
            let spot = choose_pickup_pos(&samples, self.player.pos);
            self.pickup = Some(
                Pickup { pos: Vec3I { x: spot.0, y: PICKUP_HEIGHT_MM, z: spot.1 } },
            );
            proof {
                assert(World::pickup_spawn_ok(samples@, old(self).player.pos, self.pickup));
            }
        }
    }

    /// Whether the pickup overlaps the player: the deterministic overlap
    /// test the tick feeds to collection, horizontal like the others.
    pub open spec fn pickup_overlap_spec(pk: Option<Pickup>, ppos: Vec3I) -> bool {
        match pk {
            Some(p) => spec_planar_dist_sq(p.pos, ppos) <= (PICKUP_RADIUS_MM + PLAYER_RADIUS_MM)
                * (PICKUP_RADIUS_MM + PLAYER_RADIUS_MM),
            None => false,
        }
    }

    /// Collection: when the player overlaps the live pickup, the pickup
    /// grants its heal and despawns.
    pub fn collect_pickup(&mut self) -> (collected: bool)
        requires
            old(self).wf(),
        ensures
            final(self).wf(),
            collected == World::pickup_overlap_spec(old(self).pickup, old(self).player.pos),
            collected ==> final(self).player == (Player {
                health: heal_spec(old(self).player.health as int, PICKUP_HEAL as int) as u32,
                ..old(self).player
            }) && final(self).pickup is None,
            collected ==> *final(self) == (World {
                player: final(self).player,
                pickup: None,
                ..*old(self)
            }),
            !collected ==> *final(self) == *old(self),
    {
        let overlapping = match &self.pickup {
            Some(p) => {
                let d2 = planar_dist_sq(p.pos, self.player.pos);
                proof {
                    assert((PICKUP_RADIUS_MM + PLAYER_RADIUS_MM) * (PICKUP_RADIUS_MM
                        + PLAYER_RADIUS_MM) == 2_250_000);
                }
                d2 <= 2_250_000u64
            },
            None => false,
        };
        if overlapping {
            let nh = apply_heal(self.player.health, PICKUP_HEAL);
            self.player = Player { health: nh, ..self.player };
            self.pickup = None;
        }
        overlapping
    }

    /// The player's movement, from this tick's decoded input. `grounded` is
    /// the downward ground probe's answer.
    pub fn player_move_phase(
        &mut self,
        move_x: i64,
        move_z: i64,
        jump: bool,
        grounded: bool,
        cursor: Vec3I,
    )
        requires
            old(self).wf(),
            -1 <= move_x <= 1,
            -1 <= move_z <= 1,
            cursor.in_bounds(POS_LIMIT as int),
        ensures
            final(self).wf(),
            final(self).player == player_move_spec(
                old(self).player,
                move_x,
                move_z,
                jump,
                grounded,
                cursor,
            ),
            *final(self) == (World { player: final(self).player, ..*old(self) }),
    {
        self.player = player_move(&self.player, move_x, move_z, jump, grounded, cursor);
    }

    /// A wheel-down notch cycles the player's weapon.
    pub fn change_weapon(&mut self, wheel_down: bool)
        requires
            old(self).wf(),
        ensures
            final(self).wf(),
            wheel_down ==> final(self).player == (Player {
                weapon: Weapon(next_weapon(old(self).player.weapon.0)),
                ..old(self).player
            }),
            !wheel_down ==> final(self).player == old(self).player,
            *final(self) == (World { player: final(self).player, ..*old(self) }),
    {
        if wheel_down {
            let w = cycle_weapon(self.player.weapon.0);
            self.player = Player { weapon: Weapon(w), ..self.player };
        }
    }

    /// The player's trigger, from this tick's decoded input: a fresh pull
    /// fires the pistol's round or the shotgun's fan along the facing; while
    /// held, the rifle timer paces one round per period.
    pub fn player_fire(&mut self, just_pressed: bool, held: bool, delta_ms: u64)
        requires
            old(self).wf(),
            delta_ms <= TICK_DELTA_MAX_MS,
        ensures
            final(self).wf(),
            final(self).player == (Player {
                rifle_timer: if held {
                    old(self).player.rifle_timer.spec_advance(delta_ms)
                } else {
                    old(self).player.rifle_timer
                },
                ..old(self).player
            }),
            final(self).projectiles@ == old(self).projectiles@ + World::volley_from(
                old(self).player.pos,
                PLAYER_ID,
                true,
                SHOT_SPEED_PLAYER_MM_S,
                fire_dirs_spec(
                    old(self).player.weapon.0,
                    old(self).player.facing,
                    just_pressed,
                    held && old(self).player.rifle_timer.spec_fires(delta_ms),
                ),
            ),
            forall|i: int| old(self).projectiles@.len() <= i < final(self).projectiles@.len()
                ==> (#[trigger] final(self).projectiles@[i]).alive,
            *final(self) == (World {
                player: final(self).player,
                projectiles: final(self).projectiles,
                ..*old(self)
            }),
    {
        let facing = self.player.facing;
        let rifle_fired = if held {
            let mut t = self.player.rifle_timer;
            let fired = t.advance_and_check(delta_ms);
            self.player = Player { rifle_timer: t, ..self.player };
            fired
        } else {
            false
        };
        let mut dirs: Vec<Vec3I> = if just_pressed {
            match self.player.weapon.0 {
                WeaponType::Pistol => {
                    let mut v: Vec<Vec3I> = Vec::new();
                    v.push(facing);
                    v
                },
                WeaponType::Shotgun => crate::combat::shotgun5(facing),
                WeaponType::Rifle => Vec::new(),
            }
        } else {
            Vec::new()
        };
        let is_rifle = matches!(self.player.weapon.0, WeaponType::Rifle);
        if rifle_fired && is_rifle {
            dirs.push(facing);
        }
        proof {
            assert(dirs@ =~= fire_dirs_spec(
                old(self).player.weapon.0,
                old(self).player.facing,
                just_pressed,
                held && old(self).player.rifle_timer.spec_fires(delta_ms),
            ));
        }
        let mut volley = Self::build_volley(
            self.player.pos,
            PLAYER_ID,
            true,
            SHOT_SPEED_PLAYER_MM_S,
            &dirs,
        );
        self.projectiles.append(&mut volley);
    }

    /// Whether a hostile stands within the player's melee reach,
    /// horizontally.
    pub open spec fn player_melee_hits(h: Hostile, ppos: Vec3I) -> bool {
        spec_planar_dist_sq(ppos, h.pos) <= (PLAYER_MELEE_RANGE_MM + stats_spec(
            h.archetype,
        ).radius_mm) * (PLAYER_MELEE_RANGE_MM + stats_spec(h.archetype).radius_mm)
    }

    /// The strikes one player melee swing produces, in store order: one
    /// damage event against every hostile within reach.
    pub open spec fn player_melee_events(hs: Seq<Hostile>, ppos: Vec3I) -> Seq<DamageEvent>
        decreases hs.len(),
    {
        if hs.len() == 0 {
            Seq::empty()
        } else {
            let rest = World::player_melee_events(hs.drop_last(), ppos);
            if World::player_melee_hits(hs.last(), ppos) {
                rest + seq![
                    DamageEvent {
                        target: hs.last().id,
                        amount: PLAYER_MELEE_DAMAGE,
                        pos: hs.last().pos,
                    },
                ]
            } else {
                rest
            }
        }
    }

    /// The player's melee swing: every hostile within reach takes one strike,
    /// deferred as a damage event for the ledger.
    pub fn player_melee(&mut self)
        requires
            old(self).wf(),
        ensures
            final(self).wf(),
            final(self).pending@ == old(self).pending@ + World::player_melee_events(
                old(self).hostiles@,
                old(self).player.pos,
            ),
            *final(self) == (World { pending: final(self).pending, ..*old(self) }),
    {
        let ppos = self.player.pos;
        let n = self.hostiles.len();
        let mut k: usize = 0;
        proof {
            assert(old(self).hostiles@.take(0) =~= Seq::<Hostile>::empty());
            assert(self.pending@ =~= old(self).pending@ + World::player_melee_events(
                old(self).hostiles@.take(0),
                ppos,
            ));
        }
        while k < n
            invariant
                0 <= k <= n,
                n == self.hostiles@.len(),
                n == old(self).hostiles@.len(),
                self.wf(),
                ppos == old(self).player.pos,
                self.hostiles@ == old(self).hostiles@,
                self.pending@ == old(self).pending@ + World::player_melee_events(
                    old(self).hostiles@.take(k as int),
                    ppos,
                ),
                *self == (World { pending: self.pending, ..*old(self) }),
            decreases n - k,
        {
            let h = self.hostiles[k];
            let s = stats(h.archetype);
            let reach: i64 = PLAYER_MELEE_RANGE_MM + s.radius_mm;
            proof {
                assert(reach * reach <= 20_000_000_000 && reach * reach >= 0) by (nonlinear_arith)
                    requires
                        0 <= reach <= 101_000,
                ;
            }
            let r2: i64 = reach * reach;
            let d2 = planar_dist_sq(ppos, h.pos);
            if d2 <= r2 as u64 {
                self.pending.push(
                    DamageEvent { target: h.id, amount: PLAYER_MELEE_DAMAGE, pos: h.pos },
                );
            }
            proof {
                let hs = old(self).hostiles@;
                assert(hs.take(k + 1).drop_last() =~= hs.take(k as int));
                assert(hs.take(k + 1).last() == hs[k as int]);
                assert(self.pending@ =~= old(self).pending@ + World::player_melee_events(
                    hs.take(k + 1),
                    ppos,
                ));
            }
            k = k + 1;
        }
        proof {
            assert(old(self).hostiles@.take(n as int) =~= old(self).hostiles@);
        }
    }


    /// The hostile store after the spawner's pass, given the tick's draws.
    pub open spec fn spawned_hostiles(
        w0: World,
        delta_ms: u64,
        enemy_kind: EnemyType,
        enemy_dir: Vec3I,
        boss_kind: BossType,
        boss_dir: Vec3I,
    ) -> Seq<Hostile> {
        let ef = w0.enemy_spawn_timer.spec_fires(delta_ms);
        let bf = w0.boss_spawn_timer.spec_fires(delta_ms);
        let boss_id = (w0.next_id + if ef {
            1int
        } else {
            0int
        }) as u64;
        w0.hostiles@ + (if ef {
            seq![Hostile::spec_new(Archetype::Enemy(enemy_kind), enemy_dir, w0.next_id)]
        } else {
            Seq::<Hostile>::empty()
        }) + (if bf {
            seq![Hostile::spec_new(Archetype::Boss(boss_kind), boss_dir, boss_id)]
        } else {
            Seq::<Hostile>::empty()
        })
    }

    /// The hostile store after the targeting pass.
    pub open spec fn targeted_hostiles(hs: Seq<Hostile>, ppos: Vec3I) -> Seq<Hostile> {
        Seq::new(hs.len(), |i: int| target_step_spec(hs[i], ppos))
    }

    /// The hostile store after the kinematic pass.
    pub open spec fn moved_hostiles(hs: Seq<Hostile>, delta_ms: u64) -> Seq<Hostile> {
        Seq::new(
            hs.len(),
            |i: int|
                (Hostile {
                    pos: World::motion_step_spec(hs[i].pos, hs[i].vel, delta_ms),
                    ..hs[i]
                }),
        )
    }

    /// The melee proximity answers for a whole store.
    pub open spec fn melee_overlaps_of(hs: Seq<Hostile>, ppos: Vec3I) -> Seq<bool> {
        Seq::new(hs.len(), |i: int| World::melee_overlap_spec(hs[i], ppos))
    }

    /// The hostile store after the melee pass.
    pub open spec fn meleed_hostiles(
        hs: Seq<Hostile>,
        overlaps: Seq<bool>,
        delta_ms: u64,
    ) -> Seq<Hostile> {
        Seq::new(hs.len(), |i: int| melee_step_spec(hs[i], overlaps[i], delta_ms).0)
    }

    /// The hostile store after the ranged pass.
    pub open spec fn ranged_hostiles(
        hs: Seq<Hostile>,
        ppos: Vec3I,
        choices: Seq<u64>,
        delta_ms: u64,
    ) -> Seq<Hostile> {
        Seq::new(hs.len(), |i: int| ranged_step_spec(hs[i], ppos, choices[i], delta_ms).0)
    }

    /// The shape-cast answers for a whole projectile store.
    pub open spec fn hits_of(
        ps: Seq<Projectile>,
        hs: Seq<Hostile>,
        ppos: Vec3I,
        delta_ms: u64,
    ) -> Seq<Option<u64>> {
        Seq::new(ps.len(), |i: int| World::hit_spec(ppos, hs, ps[i], delta_ms))
    }

    /// The projectile store after the advance-and-resolve pass.
    pub open spec fn stepped_projectiles(
        ps: Seq<Projectile>,
        hits: Seq<Option<u64>>,
        delta_ms: u64,
    ) -> Seq<Projectile> {
        Seq::new(ps.len(), |i: int| World::proj_step_spec(ps[i], hits[i], delta_ms))
    }

    /// The hostile store after the ledger applied the pending damage.
    pub open spec fn ledgered_hostiles(hs: Seq<Hostile>, pend: Seq<DamageEvent>) -> Seq<Hostile> {
        Seq::new(
            hs.len(),
            |i: int|
                (Hostile {
                    health: damage_fold(
                        hs[i].health as int,
                        World::events_for(pend, hs[i].id),
                    ) as u32,
                    pending_despawn: hs[i].pending_despawn || damage_fold(
                        hs[i].health as int,
                        World::events_for(pend, hs[i].id),
                    ) == 0,
                    ..hs[i]
                }),
        )
    }

    /// The complete effect of one tick, phase by phase, given the tick's
    /// random draws: the spawned enemy's archetype and ring direction, the
    /// spawned boss's, and the per-hostile mixed-pattern choices. `w0` is
    /// the world as the tick began, `w1` as it ended, and `events` what the
    /// ledger applied and returned. When a spawn timer does not fire, the
    /// corresponding draw is unused and may be anything on the ring.
    pub open spec fn tick_rel(
        w0: World,
        w1: World,
        events: Seq<DamageEvent>,
        delta_ms: u64,
        enemy_kind: EnemyType,
        enemy_dir: Vec3I,
        boss_kind: BossType,
        boss_dir: Vec3I,
        choices: Seq<u64>,
    ) -> bool {
        let ef = w0.enemy_spawn_timer.spec_fires(delta_ms);
        let bf = w0.boss_spawn_timer.spec_fires(delta_ms);
        // the spawner's additions, then targeting, kinematics, melee and
        // ranged combat, each pass applied to every hostile in store order
        let hs1 = World::spawned_hostiles(w0, delta_ms, enemy_kind, enemy_dir, boss_kind,
            boss_dir);
        let p0 = w0.player.pos;
        let hs2 = World::targeted_hostiles(hs1, p0);
        let p1 = World::motion_step_spec(p0, w0.player.vel, delta_ms);
        let hs3 = World::moved_hostiles(hs2, delta_ms);
        let overlaps = World::melee_overlaps_of(hs3, p1);
        let hs4 = World::meleed_hostiles(hs3, overlaps, delta_ms);
        let pend1 = w0.pending@ + World::melee_events(hs3, overlaps, delta_ms, p1);
        let hs5 = World::ranged_hostiles(hs4, p1, choices, delta_ms);
        // the volleys land in the store, every projectile advances and is
        // resolved against the world's own overlap answers
        let ps1 = w0.projectiles@ + World::ranged_spawns(hs4, p1, choices, delta_ms);
        let hits = World::hits_of(ps1, hs5, p1, delta_ms);
        let ps2 = World::stepped_projectiles(ps1, hits, delta_ms);
        let pend2 = pend1 + World::proj_events(ps1, hits, delta_ms);
        // the ledger applies everything collected, the sweep removes the
        // dead and the spent
        let health1 = damage_fold(w0.player.health as int, World::events_for(pend2, PLAYER_ID));
        let hs6 = World::ledgered_hostiles(hs5, pend2);
        let hs7 = hs6.filter(|h: Hostile| !h.pending_despawn);
        let ps3 = ps2.filter(|p: Projectile| p.alive);
        let pf = w0.pickup_timer.spec_fires(delta_ms);
        &&& enemy_dir.in_bounds(SCALE as int) && enemy_dir.y == 0
        &&& boss_dir.in_bounds(SCALE as int) && boss_dir.y == 0
        &&& choices.len() == hs1.len()
        &&& (forall|i: int| 0 <= i < choices.len() ==> #[trigger] choices[i] < 3)
        &&& events == pend2
        &&& w1.hostiles@ == hs7
        &&& w1.projectiles@ == ps3
        &&& w1.pending@ == Seq::<DamageEvent>::empty()
        &&& exists|relocated: Option<Pickup>|
            {
                &&& (pf ==> exists|samples: Seq<(i64, i64)>| #[trigger] World::pickup_spawn_ok(
                    samples,
                    p1,
                    relocated,
                ))
                &&& (!pf ==> relocated == w0.pickup)
                &&& w1.pickup == (if World::pickup_overlap_spec(relocated, p1) {
                    None::<Pickup>
                } else {
                    relocated
                })
                &&& w1.player == (Player {
                    pos: p1,
                    health: (if World::pickup_overlap_spec(relocated, p1) {
                        heal_spec(health1, PICKUP_HEAL as int)
                    } else {
                        health1
                    }) as u32,
                    ..w0.player
                })
            }
        &&& w1.enemy_spawn_timer == w0.enemy_spawn_timer.spec_advance(delta_ms)
        &&& w1.boss_spawn_timer == w0.boss_spawn_timer.spec_advance(delta_ms)
        &&& w1.pickup_timer == w0.pickup_timer.spec_advance(delta_ms)
        &&& w1.next_id == w0.next_id + (if ef {
            1int
        } else {
            0int
        }) + (if bf {
            1int
        } else {
            0int
        })
    }

    /// One simulation tick, phases in their fixed order: spawner, targeting
    /// and movement, kinematics, melee combat, ranged combat, projectile
    /// advancement and hits, the damage ledger, the removal sweep, and the
    /// pickup. The collision answers are computed by the world's own
    /// deterministic overlap tests; the applied damage events are returned
    /// for the feedback collaborator. The full effect is [`World::tick_rel`]
    /// for some value of the tick's random draws.
    #[verifier::rlimit(100)]
    pub fn tick(&mut self, delta_ms: u64) -> (events: Vec<DamageEvent>)
        requires
            old(self).ready(),
            delta_ms <= TICK_DELTA_MAX_MS,
            old(self).next_id + 2 < u64::MAX,
        ensures
            final(self).ready(),
            final(self).pending@.len() == 0,
            final(self).enemy_spawn_timer == old(self).enemy_spawn_timer.spec_advance(delta_ms),
            final(self).boss_spawn_timer == old(self).boss_spawn_timer.spec_advance(delta_ms),
            final(self).pickup_timer == old(self).pickup_timer.spec_advance(delta_ms),
            old(self).next_id <= final(self).next_id,
            final(self).player.weapon == old(self).player.weapon,
            final(self).player.rifle_timer == old(self).player.rifle_timer,
            final(self).player.pos == World::motion_step_spec(
                old(self).player.pos,
                old(self).player.vel,
                delta_ms,
            ),
            final(self).player.vel == old(self).player.vel,
            final(self).player.facing == old(self).player.facing,
            forall|i: int| 0 <= i < final(self).hostiles@.len() ==> (#[trigger] final(self).hostiles@[i]).health > 0,
            forall|i: int| 0 <= i < final(self).projectiles@.len() ==> (#[trigger] final(self).projectiles@[i]).alive && spec_dist_sq(
                final(self).projectiles@[i].origin,
                final(self).projectiles@[i].pos,
            ) < final(self).projectiles@[i].max_range_mm
                * final(self).projectiles@[i].max_range_mm,
            exists|ek: EnemyType, ed: Vec3I, bk: BossType, bd: Vec3I, cs: Seq<u64>|
                #[trigger] World::tick_rel(
                    *old(self),
                    *final(self),
                    events@,
                    delta_ms,
                    ek,
                    ed,
                    bk,
                    bd,
                    cs,
                ),
    {
        let ghost w0 = *old(self);
        let ghost ef = w0.enemy_spawn_timer.spec_fires(delta_ms);
        let ghost bf = w0.boss_spawn_timer.spec_fires(delta_ms);
        self.spawn_phase(delta_ms);
        let ghost edraw: (EnemyType, Vec3I) = if ef {
            choose|t: EnemyType, d: Vec3I|
                d.in_bounds(SCALE as int) && d.y == 0 && self.hostiles@[w0.hostiles@.len() as int]
                    == Hostile::spec_new(Archetype::Enemy(t), d, w0.next_id)
        } else {
            (EnemyType::Chasing, Vec3I { x: 0, y: 0, z: SCALE })
        };
        let ghost bdraw: (BossType, Vec3I) = if bf {
            choose|t: BossType, d: Vec3I|
                d.in_bounds(SCALE as int) && d.y == 0 && self.hostiles@[self.hostiles@.len() - 1]
                    == Hostile::spec_new(Archetype::Boss(t), d, (self.next_id - 1) as u64)
        } else {
            (BossType::Boss1, Vec3I { x: 0, y: 0, z: SCALE })
        };
        let ghost hs1 = World::spawned_hostiles(w0, delta_ms, edraw.0, edraw.1, bdraw.0, bdraw.1);
        proof {
            assert forall|i: int| 0 <= i < hs1.len() implies self.hostiles@[i] == hs1[i] by {
                if i < w0.hostiles@.len() {
                    assert(self.hostiles@[i] == w0.hostiles@[i]);
                }
            }
            assert(self.hostiles@ =~= hs1);
        }
        let ghost w1 = *self;
        self.targeting_phase();
        let ghost p0 = w0.player.pos;
        let ghost hs2 = World::targeted_hostiles(hs1, p0);
        proof {
            assert forall|i: int| 0 <= i < hs2.len() implies self.hostiles@[i] == hs2[i] by {
                assert(self.hostiles@[i] == target_step_spec(w1.hostiles@[i], w1.player.pos));
                assert(hs2[i] == target_step_spec(hs1[i], p0));
            }
            assert(self.hostiles@ =~= hs2);
        }
        let ghost w2 = *self;
        self.motion_phase(delta_ms);
        let ghost p1 = World::motion_step_spec(p0, w0.player.vel, delta_ms);
        let ghost hs3 = World::moved_hostiles(hs2, delta_ms);
        proof {
            assert(self.player.pos == p1);
            assert forall|i: int| 0 <= i < hs3.len() implies self.hostiles@[i] == hs3[i] by {
                assert(w2.hostiles@[i] == hs2[i]);
                assert(hs3[i] == (Hostile {
                    pos: World::motion_step_spec(hs2[i].pos, hs2[i].vel, delta_ms),
                    ..hs2[i]
                }));
            }
            assert(self.hostiles@ =~= hs3);
        }
        let overlaps = self.compute_melee_overlaps();
        let ghost ovl = World::melee_overlaps_of(hs3, p1);
        proof {
            assert forall|i: int| 0 <= i < ovl.len() implies overlaps@[i] == ovl[i] by {
                assert(overlaps@[i] == World::melee_overlap_spec(self.hostiles@[i], self.player.pos));
                assert(ovl[i] == World::melee_overlap_spec(hs3[i], p1));
            }
            assert(overlaps@ =~= ovl);
        }
        let ghost w3 = *self;
        self.melee_phase(delta_ms, &overlaps);
        let ghost hs4 = World::meleed_hostiles(hs3, ovl, delta_ms);
        let ghost pend1 = w0.pending@ + World::melee_events(hs3, ovl, delta_ms, p1);
        proof {
            assert forall|i: int| 0 <= i < hs4.len() implies self.hostiles@[i] == hs4[i] by {
                assert(self.hostiles@[i] == melee_step_spec(w3.hostiles@[i], overlaps@[i], delta_ms).0);
                assert(hs4[i] == melee_step_spec(hs3[i], ovl[i], delta_ms).0);
            }
            assert(self.hostiles@ =~= hs4);
            assert(w3.pending@ == w0.pending@);
            assert(self.pending@ == pend1);
        }
        let ghost w4 = *self;
        self.ranged_phase(delta_ms);
        let ghost choices: Seq<u64> = choose|c: Seq<u64>|
            {
                &&& c.len() == w4.hostiles@.len()
                &&& (forall|i: int| 0 <= i < c.len() ==> #[trigger] c[i] < 3)
                &&& (forall|i: int| 0 <= i < w4.hostiles@.len() ==> self.hostiles@[i]
                    == ranged_step_spec(
                    #[trigger] w4.hostiles@[i],
                    w4.player.pos,
                    c[i],
                    delta_ms,
                ).0)
                &&& self.projectiles@ == w4.projectiles@ + World::ranged_spawns(
                    w4.hostiles@,
                    w4.player.pos,
                    c,
                    delta_ms,
                )
            };
        let ghost hs5 = World::ranged_hostiles(hs4, p1, choices, delta_ms);
        let ghost ps1 = w0.projectiles@ + World::ranged_spawns(hs4, p1, choices, delta_ms);
        proof {
            assert(w4.hostiles@ == hs4 && w4.player.pos == p1 && w4.projectiles@
                == w0.projectiles@);
            assert forall|i: int| 0 <= i < hs5.len() implies self.hostiles@[i] == hs5[i] by {
                assert(self.hostiles@[i] == ranged_step_spec(
                    w4.hostiles@[i],
                    w4.player.pos,
                    choices[i],
                    delta_ms,
                ).0);
                assert(hs5[i] == ranged_step_spec(hs4[i], p1, choices[i], delta_ms).0);
            }
            assert(self.hostiles@ =~= hs5);
            assert(self.projectiles@ == ps1);
        }
        let hits = self.compute_projectile_hits(delta_ms);
        let ghost hseq = World::hits_of(ps1, hs5, p1, delta_ms);
        proof {
            assert forall|i: int| 0 <= i < hseq.len() implies hits@[i] == hseq[i] by {
                assert(hits@[i] == World::hit_spec(
                    self.player.pos,
                    self.hostiles@,
                    self.projectiles@[i],
                    delta_ms,
                ));
                assert(hseq[i] == World::hit_spec(p1, hs5, ps1[i], delta_ms));
            }
            assert(hits@ =~= hseq);
        }
        let ghost w6 = *self;
        self.projectile_phase(delta_ms, &hits);
        let ghost ps2 = World::stepped_projectiles(ps1, hseq, delta_ms);
        let ghost pend2 = pend1 + World::proj_events(ps1, hseq, delta_ms);
        proof {
            assert forall|i: int| 0 <= i < ps2.len() implies self.projectiles@[i] == ps2[i] by {
                assert(self.projectiles@[i] == World::proj_step_spec(
                    w6.projectiles@[i],
                    hits@[i],
                    delta_ms,
                ));
                assert(ps2[i] == World::proj_step_spec(ps1[i], hseq[i], delta_ms));
            }
            assert(self.projectiles@ =~= ps2);
            assert(self.pending@ == pend2);
        }
        let ghost w7 = *self;
        let events = self.ledger_phase();
        let ghost health1 = damage_fold(
            w0.player.health as int,
            World::events_for(pend2, PLAYER_ID),
        );
        let ghost hs6 = World::ledgered_hostiles(hs5, pend2);
        proof {
            assert(events@ == pend2);
            assert(w7.player.health == w0.player.health);
            assert(self.player.health == health1 as u32);
            assert forall|i: int| 0 <= i < hs6.len() implies self.hostiles@[i] == hs6[i] by {
                assert(w7.hostiles@[i] == hs5[i]);
                assert(hs6[i] == (Hostile {
                    health: damage_fold(
                        hs5[i].health as int,
                        World::events_for(pend2, hs5[i].id),
                    ) as u32,
                    pending_despawn: hs5[i].pending_despawn || damage_fold(
                        hs5[i].health as int,
                        World::events_for(pend2, hs5[i].id),
                    ) == 0,
                    ..hs5[i]
                }));
            }
            assert(self.hostiles@ =~= hs6);
            World::lemma_events_for_nonneg(pend2, PLAYER_ID);
            crate::health::lemma_damage_fold_bounds(
                w0.player.health as int,
                World::events_for(pend2, PLAYER_ID),
            );
        }
        let ghost w8 = *self;
        self.removal_phase();
        let ghost hs7 = hs6.filter(|h: Hostile| !h.pending_despawn);
        let ghost ps3 = ps2.filter(|p: Projectile| p.alive);
        proof {
            assert(self.hostiles@ == hs7);
            assert(self.projectiles@ == ps3);
        }
        let ghost w9 = *self;
        self.pickup_phase(delta_ms);
        let ghost relocated = self.pickup;
        proof {
            assert(w9.pickup_timer == w0.pickup_timer);
            assert(w9.player.pos == p1);
            assert(w9.pickup == w0.pickup);
        }
        let _collected = self.collect_pickup();
        proof {
            let pf = w0.pickup_timer.spec_fires(delta_ms);
            if pf {
                let s0 = choose|samples: Seq<(i64, i64)>|
                    World::pickup_spawn_ok(samples, w9.player.pos, relocated);
                assert(World::pickup_spawn_ok(s0, p1, relocated));
                assert(exists|samples: Seq<(i64, i64)>| #[trigger] World::pickup_spawn_ok(
                    samples,
                    p1,
                    relocated,
                ));
            } else {
                assert(relocated == w0.pickup);
            }
            assert((health1 as u32) as int == health1);
            assert(self.player == (Player {
                pos: p1,
                health: (if World::pickup_overlap_spec(relocated, p1) {
                    heal_spec(health1, PICKUP_HEAL as int)
                } else {
                    health1
                }) as u32,
                ..w0.player
            }));
            assert(self.pickup == (if World::pickup_overlap_spec(relocated, p1) {
                None::<Pickup>
            } else {
                relocated
            }));
            assert(self.hostiles@ == hs6.filter(|h: Hostile| !h.pending_despawn));
            assert(self.projectiles@ == ps2.filter(|p: Projectile| p.alive));
            assert(self.pending@ =~= Seq::<DamageEvent>::empty());
            assert(choices.len() == hs1.len());
            assert(World::tick_rel(
                w0,
                *self,
                events@,
                delta_ms,
                edraw.0,
                edraw.1,
                bdraw.0,
                bdraw.1,
                choices,
            ));
        }
        events
    }
}

} // verus!
