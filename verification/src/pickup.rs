//! The collectible pickup.
//!
//! At most one pickup is live at a time. On its repeating timer it is
//! relocated to a random point in the arena, rejecting points too close to
//! the player; the sampling is bounded and falls back to the last sample
//! rather than looping forever. On player overlap it heals and despawns.

use vstd::prelude::*;
use crate::vecmath::{Vec3I, POS_LIMIT};

verus! {

/// Milliseconds between pickup relocations.
pub const PICKUP_PERIOD_MS: u64 = 5_000;

/// The pickup never lands closer to the player than this, when any sampled
/// point allows it.
pub const PICKUP_MIN_PLAYER_DIST_MM: i64 = 2_000;

/// Health granted on collection.
pub const PICKUP_HEAL: u32 = 1;

/// Height at which the pickup sits.
pub const PICKUP_HEIGHT_MM: i64 = 500;

/// Collision radius of the pickup.
pub const PICKUP_RADIUS_MM: i64 = 500;

/// Half-width of the square the pickup is sampled from.
pub const PICKUP_BOX_MM: i64 = 7_000;

/// How many samples are drawn before giving up on the distance constraint.
pub const PICKUP_ATTEMPTS: usize = 16;

/// The live pickup.
#[derive(Clone, Copy, PartialEq, Eq, Structural, Debug)]
pub struct Pickup {
    pub pos: Vec3I,
}

/// Whether a sampled ground point keeps the minimum planar distance from the
/// player.
pub open spec fn sample_ok(s: (i64, i64), player_pos: Vec3I) -> bool {
    (s.0 - player_pos.x) * (s.0 - player_pos.x) + (s.1 - player_pos.z) * (s.1 - player_pos.z)
        > PICKUP_MIN_PLAYER_DIST_MM * PICKUP_MIN_PLAYER_DIST_MM
}

/// The point the sampling loop settles on: the first acceptable sample, or
/// the last sample drawn when none is acceptable.
pub open spec fn chosen_sample(samples: Seq<(i64, i64)>, player_pos: Vec3I) -> (i64, i64)
    decreases samples.len(),
{
    if samples.len() <= 1 {
        samples[0]
    } else if sample_ok(samples[0], player_pos) {
        samples[0]
    } else {
        chosen_sample(samples.skip(1), player_pos)
    }
}

/// If any sample keeps the minimum distance, so does the chosen one: the
/// pickup lands too close to the player only when every draw did.
pub proof fn lemma_chosen_sample_safe(samples: Seq<(i64, i64)>, player_pos: Vec3I)
    requires
        samples.len() >= 1,
        exists|i: int| 0 <= i < samples.len() && sample_ok(#[trigger] samples[i], player_pos),
    ensures
        sample_ok(chosen_sample(samples, player_pos), player_pos),
    decreases samples.len(),
{
    if samples.len() == 1 {
        assert(sample_ok(samples[0], player_pos));
    } else if !sample_ok(samples[0], player_pos) {
        let i = choose|i: int| 0 <= i < samples.len() && sample_ok(#[trigger] samples[i],
            player_pos);
        assert(sample_ok(samples.skip(1)[i - 1], player_pos));
        lemma_chosen_sample_safe(samples.skip(1), player_pos);
    }
}

/// Walks the drawn samples and returns the first acceptable one, or the last
/// when none is.
pub fn choose_pickup_pos(samples: &Vec<(i64, i64)>, player_pos: Vec3I) -> (r: (i64, i64))
    requires
        samples@.len() >= 1,
        forall|i: int| 0 <= i < samples@.len() ==> -PICKUP_BOX_MM
            <= (#[trigger] samples@[i]).0 <= PICKUP_BOX_MM && -PICKUP_BOX_MM <= samples@[i].1
            <= PICKUP_BOX_MM,
        player_pos.in_bounds(POS_LIMIT as int),
    ensures
        r == chosen_sample(samples@, player_pos),
        (exists|i: int| 0 <= i < samples@.len() && sample_ok(#[trigger] samples@[i], player_pos))
            ==> sample_ok(r, player_pos),
        -PICKUP_BOX_MM <= r.0 <= PICKUP_BOX_MM,
        -PICKUP_BOX_MM <= r.1 <= PICKUP_BOX_MM,
{
    let n = samples.len();
    let mut k: usize = 0;
    proof {
        assert(samples@.skip(0) =~= samples@);
    }
    while k < n - 1
        invariant
            0 <= k < n,
            n == samples@.len(),
            forall|i: int| 0 <= i < samples@.len() ==> -PICKUP_BOX_MM
                <= (#[trigger] samples@[i]).0 <= PICKUP_BOX_MM && -PICKUP_BOX_MM
                <= samples@[i].1 <= PICKUP_BOX_MM,
            player_pos.in_bounds(POS_LIMIT as int),
            chosen_sample(samples@, player_pos) == chosen_sample(samples@.skip(k as int),
                player_pos),
            forall|i: int| 0 <= i < k ==> !sample_ok(#[trigger] samples@[i], player_pos),
        decreases n - k,
    {
        let s = samples[k];
        proof {
            assert(-PICKUP_BOX_MM <= (samples@[k as int]).0 <= PICKUP_BOX_MM);
        }
        let dx: i64 = s.0 - player_pos.x;
        let dz: i64 = s.1 - player_pos.z;
        proof {
            assert(dx * dx <= 2_000_000_000_000_000_000 && dx * dx >= 0 && dz * dz
                <= 2_000_000_000_000_000_000 && dz * dz >= 0) by (nonlinear_arith)
                requires
                    -1_000_000_100 <= dx <= 1_000_000_100,
                    -1_000_000_100 <= dz <= 1_000_000_100,
            ;
        }
        let d2: i64 = dx * dx + dz * dz;
        if d2 > PICKUP_MIN_PLAYER_DIST_MM * PICKUP_MIN_PLAYER_DIST_MM {
            proof {
                assert(chosen_sample(samples@.skip(k as int), player_pos) == s);
            }
            return s;
        }
        proof {
            assert(samples@.skip(k as int).skip(1) =~= samples@.skip(k as int + 1));
        }
        k = k + 1;
    }
    let s = samples[n - 1];
    proof {
        assert(samples@.skip(n - 1 as int).len() == 1);
        assert(samples@.skip(n - 1 as int)[0] == samples@[n - 1]);
        if exists|i: int| 0 <= i < samples@.len() && sample_ok(#[trigger] samples@[i],
            player_pos) {
            lemma_chosen_sample_safe(samples@, player_pos);
        }
    }
    s
}

} // verus!
