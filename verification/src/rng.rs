//! Random draws.
//!
//! The one call into the random number generator lives here; everything
//! derived from a draw — reduction into a range, random planar directions —
//! is verified code on top of it.

use vstd::prelude::*;
use crate::vecmath::{Vec3I, normalize, norm_dir, SCALE};

verus! {

/// Relies on rand::random: one draw from the thread-local generator. Nothing
/// is promised of the value.
#[verifier::external_body]
fn random_u64() -> u64 {
    rand::random::<u64>()
}

/// A uniform-ish draw below `bound`.
pub fn random_below(bound: u64) -> (r: u64)
    requires
        bound >= 1,
    ensures
        r < bound,
{
    random_u64() % bound
}

/// A random horizontal direction of magnitude [`SCALE`].
pub fn random_planar_dir() -> (d: Vec3I)
    ensures
        d.y == 0,
        d.in_bounds(SCALE as int),
        exists|v: Vec3I| !v.is_zero() && v.y == 0 && d == norm_dir(v),
{
    let x = random_below(2001) as i64 - 1000;
    let z = random_below(2001) as i64 - 1000;
    let v = Vec3I { x, y: 0, z };
    let fallback = Vec3I { x: 0, y: 0, z: 1 };
    match normalize(v) {
        Some(d) => {
            proof {
                assert(!v.is_zero() && v.y == 0 && d == norm_dir(v));
            }
            d
        },
        None => {
            let d = normalize(fallback).unwrap();
            proof {
                assert(!fallback.is_zero() && fallback.y == 0 && d == norm_dir(fallback));
            }
            d
        },
    }
}

} // verus!
