//! Fixed-point vector arithmetic.
//!
//! Positions, directions and velocities are 3D vectors of `i64` milli-units:
//! 1000 fixed-point units stand for one world unit. Directions returned by
//! [`normalize`] have magnitude close to [`SCALE`]; squared distances are
//! compared directly, so no square root is taken on the hot paths.

use vstd::prelude::*;

verus! {

/// Fixed-point units per world unit.
pub const SCALE: i64 = 1000;

/// Bound on every coordinate of an actor or pickup position.
pub const POS_LIMIT: i64 = 100_000_000;

/// Bound on a projectile's maximum travel distance.
pub const RANGE_LIMIT: i64 = 1_000_000;

/// Bound on every component of a direction vector (a normalized direction has
/// components within [`SCALE`]; one rotation step can push a component a bit
/// further out).
pub const DIR_LIMIT: i64 = 1_500;

/// Bound on every component of a velocity, in milli-units per second.
pub const VEL_LIMIT: i64 = 200_000;

/// Bound on the displacement a single tick can produce.
pub const STEP_LIMIT: i64 = 2_000_000;

/// Bound on every coordinate of a projectile position: it starts at an actor
/// position, stays within its travel range while live, and moves at most one
/// step past it on the tick it is removed.
pub const PROJ_POS_LIMIT: i64 = 103_000_000;

/// A 3D vector in fixed-point milli-units.
#[derive(Clone, Copy, PartialEq, Eq, Structural, Debug)]
pub struct Vec3I {
    pub x: i64,
    pub y: i64,
    pub z: i64,
}

/// Truncating division of `a` by a positive `b`, as Rust's `/` computes it on
/// signed integers: the quotient is rounded toward zero.
pub open spec fn trunc_div(a: int, b: int) -> int {
    if a >= 0 {
        a / b
    } else {
        -((-a) / b)
    }
}

/// `a`, scaled by `num / den` with truncation toward zero.
pub open spec fn scale_trunc(a: int, num: int, den: int) -> int {
    trunc_div(a * num, den)
}

impl Vec3I {
    /// Every coordinate lies within `[-b, b]`.
    pub open spec fn in_bounds(self, b: int) -> bool {
        -b <= self.x <= b && -b <= self.y <= b && -b <= self.z <= b
    }

    /// The squared magnitude.
    pub open spec fn spec_norm_sq(self) -> int {
        self.x * self.x + self.y * self.y + self.z * self.z
    }

    pub open spec fn is_zero(self) -> bool {
        self.x == 0 && self.y == 0 && self.z == 0
    }

    pub fn new(x: i64, y: i64, z: i64) -> (r: Vec3I)
        ensures
            r == (Vec3I { x, y, z }),
    {
        Vec3I { x, y, z }
    }
}

/// The squared distance between two points.
pub open spec fn spec_dist_sq(a: Vec3I, b: Vec3I) -> int {
    (a.x - b.x) * (a.x - b.x) + (a.y - b.y) * (a.y - b.y) + (a.z - b.z) * (a.z - b.z)
}

/// A point is at squared distance zero from itself.
pub proof fn lemma_dist_sq_self_zero(a: Vec3I)
    ensures
        spec_dist_sq(a, a) == 0,
{
    assert((a.x - a.x) * (a.x - a.x) + (a.y - a.y) * (a.y - a.y) + (a.z - a.z) * (a.z - a.z)
        == 0) by (nonlinear_arith);
}

/// The squared distance between the horizontal (X/Z) projections of two
/// points.
pub open spec fn spec_planar_dist_sq(a: Vec3I, b: Vec3I) -> int {
    (a.x - b.x) * (a.x - b.x) + (a.z - b.z) * (a.z - b.z)
}

/// The square of a coordinate difference, computed without overflow.
fn sq_diff(a: i64, b: i64) -> (r: u64)
    requires
        -1_000_000_000 <= a <= 1_000_000_000,
        -1_000_000_000 <= b <= 1_000_000_000,
    ensures
        r == (a - b) * (a - b),
        r <= 4_000_000_000_000_000_000,
{
    let d: i64 = a - b;
    let m: u64 = if d >= 0 {
        d as u64
    } else {
        (-d) as u64
    };
    proof {
        assert(m * m <= 4_000_000_000_000_000_000) by (nonlinear_arith)
            requires
                0 <= m <= 2_000_000_000,
        ;
        assert(m as int * m as int == d as int * d as int) by (nonlinear_arith)
            requires
                m == d || m == -(d as int),
        ;
    }
    m * m
}

/// The squared distance between two points.
pub fn dist_sq(a: Vec3I, b: Vec3I) -> (r: u64)
    requires
        a.in_bounds(1_000_000_000),
        b.in_bounds(1_000_000_000),
    ensures
        r == spec_dist_sq(a, b),
{
    let dx = sq_diff(a.x, b.x);
    let dy = sq_diff(a.y, b.y);
    let dz = sq_diff(a.z, b.z);
    dx + dy + dz
}

/// The squared distance between the horizontal projections of two points.
pub fn planar_dist_sq(a: Vec3I, b: Vec3I) -> (r: u64)
    requires
        a.in_bounds(1_000_000_000),
        b.in_bounds(1_000_000_000),
    ensures
        r == spec_planar_dist_sq(a, b),
{
    let dx = sq_diff(a.x, b.x);
    let dz = sq_diff(a.z, b.z);
    dx + dz
}

/// The integer square root: the largest `r` with `r * r <= n`.
pub open spec fn sqrt_spec(n: nat) -> nat
    decreases n,
{
    if n == 0 {
        0
    } else {
        let p = sqrt_spec((n - 1) as nat);
        if (p + 1) * (p + 1) <= n {
            p + 1
        } else {
            p
        }
    }
}

/// `sqrt_spec(n)` brackets `n` between consecutive squares.
pub proof fn lemma_sqrt_spec_bounds(n: nat)
    ensures
        sqrt_spec(n) * sqrt_spec(n) <= n,
        n < (sqrt_spec(n) + 1) * (sqrt_spec(n) + 1),
    decreases n,
{
    if n == 0 {
        let s = sqrt_spec(n);
        assert(s == 0);
        assert((s + 1) * (s + 1) == 1) by (nonlinear_arith)
            requires
                s == 0,
        ;
    } else {
        let p = sqrt_spec((n - 1) as nat);
        lemma_sqrt_spec_bounds((n - 1) as nat);
        if (p + 1) * (p + 1) <= n {
            assert(sqrt_spec(n) == p + 1);
            assert(n < ((p + 1) + 1) * ((p + 1) + 1)) by (nonlinear_arith)
                requires
                    n - 1 < (p + 1) * (p + 1),
                    p >= 0,
            ;
            assert(n < (sqrt_spec(n) + 1) * (sqrt_spec(n) + 1));
        } else {
            assert(sqrt_spec(n) == p);
        }
    }
}

/// Any `r` bracketing `n` between consecutive squares is the integer square
/// root.
pub proof fn lemma_sqrt_unique(n: nat, r: nat)
    requires
        r * r <= n,
        n < (r + 1) * (r + 1),
    ensures
        r == sqrt_spec(n),
{
    let s = sqrt_spec(n);
    lemma_sqrt_spec_bounds(n);
    if r < s {
        assert(false) by (nonlinear_arith)
            requires
                r < s,
                s * s <= n,
                n < (r + 1) * (r + 1),
                r >= 0,
                s >= 0,
        ;
    }
    if s < r {
        assert(false) by (nonlinear_arith)
            requires
                s < r,
                r * r <= n,
                n < (s + 1) * (s + 1),
                r >= 0,
                s >= 0,
        ;
    }
}

/// The integer square root, by bisection.
pub fn isqrt(n: u64) -> (r: u64)
    ensures
        r == sqrt_spec(n as nat),
        r * r <= n < (r + 1) * (r + 1),
{
    let mut lo: u64 = 0;
    let mut hi: u64 = 4_294_967_296;
    proof {
        assert((hi as int) * (hi as int) > n as int) by (nonlinear_arith)
            requires
                hi == 4_294_967_296,
                n <= 18_446_744_073_709_551_615,
        ;
    }
    while lo + 1 < hi
        invariant
            lo < hi <= 4_294_967_296,
            lo * lo <= n,
            n < hi * hi,
        decreases hi - lo,
    {
        let mid = lo + (hi - lo) / 2;
        assert(lo < mid < hi);
        assert(mid * mid <= 18_446_744_073_709_551_615) by (nonlinear_arith)
            requires
                0 <= mid <= 4_294_967_295,
        ;
        if mid * mid <= n {
            lo = mid;
        } else {
            hi = mid;
        }
    }
    proof {
        lemma_sqrt_unique(n as nat, lo as nat);
    }
    lo
}

/// `a * num / den` with truncation toward zero, the scaling step used to
/// normalize and to advance positions.
pub fn scale_trunc_exec(a: i64, num: i64, den: i64) -> (r: i64)
    requires
        -1_000_000_000 <= a <= 1_000_000_000,
        0 <= num <= 2_000_000_000,
        1 <= den <= 2_000_000_000,
    ensures
        r == scale_trunc(a as int, num as int, den as int),
{
    if a >= 0 {
        proof {
            assert((a as int) * (num as int) <= 2_000_000_000_000_000_000) by (nonlinear_arith)
                requires
                    0 <= a <= 1_000_000_000,
                    0 <= num <= 2_000_000_000,
            ;
        }
        let prod: u64 = (a as u64) * (num as u64);
        let q: u64 = prod / (den as u64);
        proof {
            assert(prod as int / (den as int) <= prod as int) by (nonlinear_arith)
                requires
                    prod >= 0,
                    den >= 1,
            ;
        }
        q as i64
    } else {
        let m: u64 = (-a) as u64;
        proof {
            assert((m as int) * (num as int) <= 2_000_000_000_000_000_000) by (nonlinear_arith)
                requires
                    0 <= m <= 1_000_000_000,
                    0 <= num <= 2_000_000_000,
            ;
        }
        let prod: u64 = m * (num as u64);
        let q: u64 = prod / (den as u64);
        proof {
            assert(prod as int / (den as int) <= prod as int) by (nonlinear_arith)
                requires
                    prod >= 0,
                    den >= 1,
            ;
            assert((a as int) * (num as int) == -((m as int) * (num as int))) by (nonlinear_arith)
                requires
                    m == -(a as int),
            ;
        }
        -(q as i64)
    }
}

/// The squared magnitude, computed without overflow.
pub fn norm_sq(v: Vec3I) -> (r: u64)
    requires
        v.in_bounds(1_000_000_000),
    ensures
        r == v.spec_norm_sq(),
        r <= 3_000_000_000_000_000_000,
{
    let x2 = sq_diff(v.x, 0);
    let y2 = sq_diff(v.y, 0);
    let z2 = sq_diff(v.z, 0);
    proof {
        assert(x2 <= 1_000_000_000_000_000_000 && y2 <= 1_000_000_000_000_000_000 && z2
            <= 1_000_000_000_000_000_000) by (nonlinear_arith)
            requires
                x2 == v.x * v.x,
                y2 == v.y * v.y,
                z2 == v.z * v.z,
                -1_000_000_000 <= v.x <= 1_000_000_000,
                -1_000_000_000 <= v.y <= 1_000_000_000,
                -1_000_000_000 <= v.z <= 1_000_000_000,
        ;
    }
    x2 + y2 + z2
}

/// The direction of `v`, scaled to magnitude [`SCALE`]: each component is
/// `v_i * SCALE / |v|` with truncation toward zero. Meaningful only for a
/// non-zero `v`.
pub open spec fn norm_dir(v: Vec3I) -> Vec3I {
    let m = sqrt_spec(v.spec_norm_sq() as nat) as int;
    Vec3I {
        x: scale_trunc(v.x as int, SCALE as int, m) as i64,
        y: scale_trunc(v.y as int, SCALE as int, m) as i64,
        z: scale_trunc(v.z as int, SCALE as int, m) as i64,
    }
}

/// The scaling step of a normalization stays within `[-s, s]` when the
/// component does not exceed the magnitude.
pub proof fn lemma_scale_trunc_bound(a: int, s: int, m: int)
    requires
        -m <= a <= m,
        1 <= m,
        0 <= s,
    ensures
        -s <= scale_trunc(a, s, m) <= s,
{
    let q = if a * s >= 0 {
        (a * s) / m
    } else {
        -((-(a * s)) / m)
    };
    assert(-s <= q <= s) by (nonlinear_arith)
        requires
            -m <= a <= m,
            1 <= m,
            0 <= s,
            q == (if a * s >= 0 {
                (a * s) / m
            } else {
                -((-(a * s)) / m)
            }),
    ;
    assert(scale_trunc(a, s, m) == q);
}

/// No component of a vector exceeds the integer square root of its squared
/// magnitude.
proof fn lemma_component_le_magnitude(v: Vec3I, m: int)
    requires
        m == sqrt_spec(v.spec_norm_sq() as nat),
        v.spec_norm_sq() > 0,
    ensures
        -m <= v.x <= m,
        -m <= v.y <= m,
        -m <= v.z <= m,
{
    lemma_sqrt_spec_bounds(v.spec_norm_sq() as nat);
    assert(-m <= v.x <= m && -m <= v.y <= m && -m <= v.z <= m) by (nonlinear_arith)
        requires
            v.spec_norm_sq() == v.x * v.x + v.y * v.y + v.z * v.z,
            v.spec_norm_sq() < (m + 1) * (m + 1),
            m >= 0,
    ;
}

/// Scales a non-zero vector to a direction of magnitude [`SCALE`]; a zero
/// vector has no direction.
pub fn normalize(v: Vec3I) -> (r: Option<Vec3I>)
    requires
        v.in_bounds(1_000_000_000),
    ensures
        v.is_zero() <==> r is None,
        !v.is_zero() ==> r == Some(norm_dir(v)) && norm_dir(v).in_bounds(SCALE as int),
        !v.is_zero() && v.y == 0 ==> norm_dir(v).y == 0,
{
    if v.x == 0 && v.y == 0 && v.z == 0 {
        return None;
    }
    let nsq = norm_sq(v);
    proof {
        assert(v.spec_norm_sq() > 0) by (nonlinear_arith)
            requires
                v.spec_norm_sq() == v.x * v.x + v.y * v.y + v.z * v.z,
                !(v.x == 0 && v.y == 0 && v.z == 0),
        ;
    }
    let m = isqrt(nsq);
    proof {
        assert(m >= 1) by (nonlinear_arith)
            requires
                nsq >= 1,
                nsq < (m + 1) * (m + 1),
                m >= 0,
        ;
        assert(m <= 2_000_000_000) by (nonlinear_arith)
            requires
                m * m <= 3_000_000_000_000_000_000,
                m >= 0,
        ;
        lemma_component_le_magnitude(v, m as int);
        lemma_scale_trunc_bound(v.x as int, SCALE as int, m as int);
        lemma_scale_trunc_bound(v.y as int, SCALE as int, m as int);
        lemma_scale_trunc_bound(v.z as int, SCALE as int, m as int);
        if v.y == 0 {
            assert(0int / (m as int) == 0) by (nonlinear_arith)
                requires
                    m >= 1,
            ;
            assert(scale_trunc(0, SCALE as int, m as int) == 0);
        }
    }
    let x = scale_trunc_exec(v.x, SCALE, m as i64);
    let y = scale_trunc_exec(v.y, SCALE, m as i64);
    let z = scale_trunc_exec(v.z, SCALE, m as i64);
    Some(Vec3I { x, y, z })
}

/// `v` rotated about the vertical axis, with the cosine and sine of the angle
/// given in milli-units.
pub open spec fn rot_y_spec(v: Vec3I, cos_m: int, sin_m: int) -> Vec3I {
    Vec3I {
        x: trunc_div(v.x * cos_m + v.z * sin_m, SCALE as int) as i64,
        y: v.y,
        z: trunc_div(v.z * cos_m - v.x * sin_m, SCALE as int) as i64,
    }
}

/// A quotient is bounded when its numerator is bounded by a multiple of the
/// divisor.
pub proof fn lemma_trunc_div_bound(a: int, b: int, k: int)
    requires
        -(b * k) <= a <= b * k,
        1 <= b,
        0 <= k,
    ensures
        -k <= trunc_div(a, b) <= k,
{
    let q = if a >= 0 {
        a / b
    } else {
        -((-a) / b)
    };
    assert(-k <= q <= k) by (nonlinear_arith)
        requires
            -(b * k) <= a <= b * k,
            1 <= b,
            0 <= k,
            q == (if a >= 0 {
                a / b
            } else {
                -((-a) / b)
            }),
    ;
    assert(trunc_div(a, b) == q);
}

/// Truncating division by [`SCALE`].
fn div_by_scale(a: i64) -> (r: i64)
    requires
        -4_000_000_000 <= a <= 4_000_000_000,
    ensures
        r == trunc_div(a as int, SCALE as int),
{
    if a >= 0 {
        ((a as u64) / 1000) as i64
    } else {
        -((((-a) as u64) / 1000) as i64)
    }
}

/// Rotates `v` about the vertical axis. `cos_m` and `sin_m` are the cosine
/// and sine of the angle in milli-units; their magnitudes must sum to at most
/// [`DIR_LIMIT`], which keeps the rotation of a normalized direction within
/// direction bounds.
pub fn rot_y(v: Vec3I, cos_m: i64, sin_m: i64) -> (r: Vec3I)
    requires
        v.in_bounds(SCALE as int),
        -SCALE <= cos_m <= SCALE,
        -SCALE <= sin_m <= SCALE,
        (if cos_m >= 0 { cos_m as int } else { -(cos_m as int) }) + (if sin_m >= 0 { sin_m as int } else { -(sin_m as int) })
            <= DIR_LIMIT,
    ensures
        r == rot_y_spec(v, cos_m as int, sin_m as int),
        r.in_bounds(DIR_LIMIT as int),
        r.y == v.y,
{
    let ghost ca: int = if cos_m >= 0 { cos_m as int } else { -(cos_m as int) };
    let ghost sa: int = if sin_m >= 0 { sin_m as int } else { -(sin_m as int) };
    proof {
        assert(-(1000 * ca) <= v.x * cos_m <= 1000 * ca && -(1000 * sa) <= v.z * sin_m <= 1000
            * sa && -(1000 * ca) <= v.z * cos_m <= 1000 * ca && -(1000 * sa) <= v.x * sin_m
            <= 1000 * sa) by (nonlinear_arith)
            requires
                -1000 <= v.x <= 1000,
                -1000 <= v.z <= 1000,
                ca == (if cos_m >= 0 { cos_m as int } else { -(cos_m as int) }),
                sa == (if sin_m >= 0 { sin_m as int } else { -(sin_m as int) }),
        ;
        assert(1000 * ca + 1000 * sa <= 1000 * 1500) by (nonlinear_arith)
            requires
                0 <= ca,
                0 <= sa,
                ca + sa <= 1500,
        ;
    }
    let xn: i64 = v.x * cos_m + v.z * sin_m;
    let zn: i64 = v.z * cos_m - v.x * sin_m;
    proof {
        lemma_trunc_div_bound(xn as int, SCALE as int, DIR_LIMIT as int);
        lemma_trunc_div_bound(zn as int, SCALE as int, DIR_LIMIT as int);
        assert(1000 * 1500 == (SCALE as int) * (DIR_LIMIT as int));
    }
    let x = div_by_scale(xn);
    let z = div_by_scale(zn);
    Vec3I { x, y: v.y, z }
}

/// A coordinate forced into the actor-position range.
pub open spec fn clamp_coord_spec(a: int) -> int {
    if a > POS_LIMIT as int {
        POS_LIMIT as int
    } else if a < -(POS_LIMIT as int) {
        -(POS_LIMIT as int)
    } else {
        a
    }
}

/// A position forced into the actor-position range, coordinate by coordinate.
pub open spec fn clamp_pos_spec(v: Vec3I) -> Vec3I {
    Vec3I {
        x: clamp_coord_spec(v.x as int) as i64,
        y: clamp_coord_spec(v.y as int) as i64,
        z: clamp_coord_spec(v.z as int) as i64,
    }
}

fn clamp_coord(a: i64) -> (r: i64)
    ensures
        r == clamp_coord_spec(a as int),
{
    if a > POS_LIMIT {
        POS_LIMIT
    } else if a < -POS_LIMIT {
        -POS_LIMIT
    } else {
        a
    }
}

/// Forces a position into the actor-position range.
pub fn clamp_pos(v: Vec3I) -> (r: Vec3I)
    ensures
        r == clamp_pos_spec(v),
        r.in_bounds(POS_LIMIT as int),
{
    Vec3I { x: clamp_coord(v.x), y: clamp_coord(v.y), z: clamp_coord(v.z) }
}

} // verus!
