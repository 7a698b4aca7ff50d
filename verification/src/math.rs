//! Fixed-point 3-vector arithmetic for the simulation.
//!
//! Coordinates are held in thousandths of a world unit, as `i64` values
//! bounded by [`COORD_LIMIT`], so distances, squares and the per-frame
//! movement step can be computed exactly and proved free of overflow.

use vstd::arithmetic::div_mod::{
    lemma_div_is_ordered, lemma_div_multiples_vanish, lemma_div_pos_is_pos,
    lemma_fundamental_div_mod, lemma_mod_bound,
};
use vstd::arithmetic::mul::{
    lemma_mul_inequality, lemma_mul_is_distributive_add, lemma_mul_is_distributive_add_other_way,
};
use vstd::prelude::*;

verus! {

/// Largest coordinate magnitude the simulation admits (in thousandths of a
/// world unit). Keeping coordinates within this bound keeps every squared
/// distance within `u64` range.
pub const COORD_LIMIT: i64 = 1_048_576;

/// A position or direction in fixed-point coordinates.
#[derive(Clone, Copy, Debug, PartialEq, Eq, Structural)]
pub struct Vec3Fx {
    pub x: i64,
    pub y: i64,
    pub z: i64,
}

/// Magnitude of a mathematical integer.
pub open spec fn iabs(x: int) -> int {
    if x >= 0 {
        x
    } else {
        -x
    }
}

/// Square of a mathematical integer.
pub open spec fn sq(x: int) -> int {
    x * x
}

/// All three coordinates lie within the simulation's coordinate bound.
pub open spec fn in_range(v: Vec3Fx) -> bool {
    &&& -(COORD_LIMIT as int) <= v.x <= COORD_LIMIT as int
    &&& -(COORD_LIMIT as int) <= v.y <= COORD_LIMIT as int
    &&& -(COORD_LIMIT as int) <= v.z <= COORD_LIMIT as int
}

/// Squared Euclidean distance between two fixed-point vectors.
pub open spec fn dist2(a: Vec3Fx, b: Vec3Fx) -> int {
    sq(a.x - b.x) + sq(a.y - b.y) + sq(a.z - b.z)
}

/// Integer square root by rounding down: the largest `r` with `r * r <= n`.
pub open spec fn fsqrt(n: int) -> int
    recommends
        n >= 0,
    decreases n,
{
    if n <= 0 {
        0
    } else {
        let r: int = fsqrt(n - 1);
        if (r + 1) * (r + 1) <= n {
            r + 1
        } else {
            r
        }
    }
}

/// Euclidean distance between two fixed-point vectors, rounded down.
pub open spec fn dist(a: Vec3Fx, b: Vec3Fx) -> int {
    fsqrt(dist2(a, b))
}

pub proof fn lemma_sq_nonneg(x: int)
    by (nonlinear_arith)
    ensures
        sq(x) >= 0,
        sq(x) == sq(iabs(x)),
{
}

pub proof fn lemma_dist2_nonneg(a: Vec3Fx, b: Vec3Fx)
    ensures
        dist2(a, b) >= 0,
{
    lemma_sq_nonneg(a.x - b.x);
    lemma_sq_nonneg(a.y - b.y);
    lemma_sq_nonneg(a.z - b.z);
}

/// The defining property of `fsqrt`: its result squares to at most `n`, and
/// the next integer squares past `n`.
pub proof fn lemma_fsqrt_bounds(n: int)
    requires
        n >= 0,
    ensures
        0 <= fsqrt(n),
        fsqrt(n) * fsqrt(n) <= n,
        n < (fsqrt(n) + 1) * (fsqrt(n) + 1),
    decreases n,
{
    if n == 0 {
    } else {
        let r: int = fsqrt(n - 1);
        lemma_fsqrt_bounds(n - 1);
        if (r + 1) * (r + 1) <= n {
            assert(fsqrt(n) == r + 1);
            assert((r + 1) * (r + 1) < (r + 2) * (r + 2)) by (nonlinear_arith)
                requires
                    r >= 0,
            ;
        } else {
            assert(fsqrt(n) == r);
        }
    }
}

/// `fsqrt` is the only value whose square brackets `n`.
pub proof fn lemma_fsqrt_unique(n: int, r: int)
    requires
        0 <= n,
        0 <= r,
        r * r <= n,
        n < (r + 1) * (r + 1),
    ensures
        fsqrt(n) == r,
{
    lemma_fsqrt_bounds(n);
    let f: int = fsqrt(n);
    assert(f == r) by (nonlinear_arith)
        requires
            0 <= f,
            0 <= r,
            f * f <= n,
            n < (f + 1) * (f + 1),
            r * r <= n,
            n < (r + 1) * (r + 1),
    ;
}

pub proof fn lemma_fsqrt_le(n: int, k: int)
    requires
        0 <= n,
        0 <= k,
        n < (k + 1) * (k + 1),
    ensures
        fsqrt(n) <= k,
{
    lemma_fsqrt_bounds(n);
    let f: int = fsqrt(n);
    assert(f <= k) by (nonlinear_arith)
        requires
            0 <= f,
            0 <= k,
            f * f <= n,
            n < (k + 1) * (k + 1),
    ;
}

pub proof fn lemma_fsqrt_ge(n: int, k: int)
    requires
        0 <= n,
        0 <= k,
        k * k <= n,
    ensures
        fsqrt(n) >= k,
{
    lemma_fsqrt_bounds(n);
    let f: int = fsqrt(n);
    assert(f >= k) by (nonlinear_arith)
        requires
            0 <= f,
            0 <= k,
            k * k <= n,
            n < (f + 1) * (f + 1),
    ;
}

/// Integer square root, rounding down.
pub fn isqrt(n: u64) -> (r: u64)
    ensures
        r == fsqrt(n as int),
{
    let mut lo: u64 = 0;
    let mut hi: u64 = 4294967296;
    proof {
        assert((4294967296int) * (4294967296int) > n as int);
    }
    while lo + 1 < hi
        invariant
            lo < hi,
            hi <= 4294967296,
            (lo as int) * (lo as int) <= n as int,
            (n as int) < (hi as int) * (hi as int),
        decreases hi - lo,
    {
        let mid: u64 = lo + (hi - lo) / 2;
        proof {
            assert((mid as int) * (mid as int) <= (4294967296int) * (4294967296int))
                by (nonlinear_arith)
                requires
                    0 <= mid as int <= 4294967296int,
            ;
        }
        let sq_m: u128 = (mid as u128) * (mid as u128);
        if sq_m <= n as u128 {
            lo = mid;
        } else {
            hi = mid;
        }
    }
    proof {
        lemma_fsqrt_unique(n as int, lo as int);
    }
    lo
}

/// Movement of one coordinate: the part of the offset `delta` that remains
/// after the step, scaled by `keep / d` with the magnitude rounded down.
pub open spec fn axis_move(delta: int, keep: int, d: int) -> int {
    if delta >= 0 {
        (delta * keep) / d
    } else {
        -(((-delta) * keep) / d)
    }
}

/// One movement update: the position after advancing `p` toward `t` by `step`
/// thousandths of a unit, clamped so the target is never overshot. Once the
/// remaining distance is within `step`, the result is the target itself.
pub open spec fn spec_move_once(p: Vec3Fx, t: Vec3Fx, step: int) -> Vec3Fx {
    let d: int = dist(p, t);
    if d <= step {
        t
    } else {
        let keep: int = d - step;
        Vec3Fx {
            x: (t.x + axis_move(p.x - t.x, keep, d)) as i64,
            y: (t.y + axis_move(p.y - t.y, keep, d)) as i64,
            z: (t.z + axis_move(p.z - t.z, keep, d)) as i64,
        }
    }
}

/// Magnitude of a bounded `i64` difference, as `u64`.
fn abs_diff(a: i64, b: i64) -> (m: u64)
    requires
        -(COORD_LIMIT as int) <= a <= COORD_LIMIT as int,
        -(COORD_LIMIT as int) <= b <= COORD_LIMIT as int,
    ensures
        m == iabs(a - b),
        m <= 2 * COORD_LIMIT,
{
    let d: i64 = a - b;
    if d >= 0 {
        d as u64
    } else {
        (-d) as u64
    }
}

/// The rounded-down scaled magnitude never exceeds the magnitude it scales.
proof fn lemma_scaled_le(m: int, keep: int, d: int)
    requires
        0 <= m,
        0 <= keep <= d,
        0 < d,
    ensures
        0 <= (m * keep) / d <= m,
{
    assert(m * keep <= m * d) by (nonlinear_arith)
        requires
            0 <= m,
            keep <= d,
    ;
    assert(m * keep >= 0) by (nonlinear_arith)
        requires
            0 <= m,
            0 <= keep,
    ;
    lemma_div_pos_is_pos(m * keep, d);
    lemma_div_is_ordered(m * keep, m * d, d);
    lemma_div_multiples_vanish(m, d);
    assert(m * d == d * m) by (nonlinear_arith);
    assert((d * m) / d == m);
}

/// One movement update in executable form.
pub fn move_once(p: Vec3Fx, t: Vec3Fx, step: i64) -> (q: Vec3Fx)
    requires
        in_range(p),
        in_range(t),
        0 <= step,
    ensures
        q == spec_move_once(p, t, step as int),
        in_range(q),
{
    let dx: i64 = p.x - t.x;
    let dy: i64 = p.y - t.y;
    let dz: i64 = p.z - t.z;
    let mx: u64 = abs_diff(p.x, t.x);
    let my: u64 = abs_diff(p.y, t.y);
    let mz: u64 = abs_diff(p.z, t.z);
    proof {
        assert(mx * mx <= (2 * COORD_LIMIT) * (2 * COORD_LIMIT)) by (nonlinear_arith)
            requires
                0 <= mx as int <= 2 * COORD_LIMIT,
        ;
        assert(my * my <= (2 * COORD_LIMIT) * (2 * COORD_LIMIT)) by (nonlinear_arith)
            requires
                0 <= my as int <= 2 * COORD_LIMIT,
        ;
        assert(mz * mz <= (2 * COORD_LIMIT) * (2 * COORD_LIMIT)) by (nonlinear_arith)
            requires
                0 <= mz as int <= 2 * COORD_LIMIT,
        ;
        lemma_sq_nonneg(dx as int);
        lemma_sq_nonneg(dy as int);
        lemma_sq_nonneg(dz as int);
    }
    let d2: u64 = mx * mx + my * my + mz * mz;
    proof {
        assert(d2 == dist2(p, t));
    }
    let d: u64 = isqrt(d2);
    proof {
        assert(d == dist(p, t));
    }
    if d <= step as u64 {
        t
    } else {
        let keep: u64 = d - step as u64;
        proof {
            assert(d <= 4194304) by {
                lemma_fsqrt_bounds(d2 as int);
                assert((4194305int) * (4194305int) > d2 as int);
                lemma_fsqrt_le(d2 as int, 4194304int);
            }
            lemma_scaled_le(mx as int, keep as int, d as int);
            lemma_scaled_le(my as int, keep as int, d as int);
            lemma_scaled_le(mz as int, keep as int, d as int);
            assert(mx * keep <= (2 * COORD_LIMIT) * (4194304int)) by (nonlinear_arith)
                requires
                    0 <= mx as int <= 2 * COORD_LIMIT,
                    0 <= keep as int <= 4194304int,
            ;
            assert(my * keep <= (2 * COORD_LIMIT) * (4194304int)) by (nonlinear_arith)
                requires
                    0 <= my as int <= 2 * COORD_LIMIT,
                    0 <= keep as int <= 4194304int,
            ;
            assert(mz * keep <= (2 * COORD_LIMIT) * (4194304int)) by (nonlinear_arith)
                requires
                    0 <= mz as int <= 2 * COORD_LIMIT,
                    0 <= keep as int <= 4194304int,
            ;
        }
        let nx: u64 = mx * keep / d;
        let ny: u64 = my * keep / d;
        let nz: u64 = mz * keep / d;
        let qx: i64 = if dx >= 0 {
            t.x + nx as i64
        } else {
            t.x - nx as i64
        };
        let qy: i64 = if dy >= 0 {
            t.y + ny as i64
        } else {
            t.y - ny as i64
        };
        let qz: i64 = if dz >= 0 {
            t.z + nz as i64
        } else {
            t.z - nz as i64
        };
        proof {
            let ki: int = keep as int;
            let di: int = d as int;
            assert(axis_move(dx as int, ki, di) == if dx >= 0 {
                nx as int
            } else {
                -(nx as int)
            });
            assert(axis_move(dy as int, ki, di) == if dy >= 0 {
                ny as int
            } else {
                -(ny as int)
            });
            assert(axis_move(dz as int, ki, di) == if dz >= 0 {
                nz as int
            } else {
                -(nz as int)
            });
        }
        Vec3Fx { x: qx, y: qy, z: qz }
    }
}

/// Squaring both sides of `d * n <= m * k` for nonnegative quantities.
proof fn lemma_axis_sq_upper(m: int, k: int, d: int, n: int)
    by (nonlinear_arith)
    requires
        0 <= m,
        0 <= k,
        0 < d,
        0 <= n,
        d * n <= m * k,
    ensures
        (d * d) * (n * n) <= (m * m) * (k * k),
{
}

/// Squaring both sides of `m * k < d * n + d` for nonnegative quantities.
proof fn lemma_axis_sq_lower(m: int, k: int, d: int, n: int)
    by (nonlinear_arith)
    requires
        0 <= m,
        0 <= k,
        0 < d,
        0 <= n,
        m * k < d * n + d,
    ensures
        (d * d) * (n * n) >= (m * m) * (k * k) - 2 * ((m * k) * d),
{
}

/// Summing the squared per-axis upper bounds and cancelling `d * d`.
proof fn lemma_sum_upper(n1: int, n2: int, n3: int, m1: int, m2: int, m3: int, k: int, d: int)
    requires
        0 < d,
        0 < k,
        k <= d,
        (d * d) * (n1 * n1) <= (m1 * m1) * (k * k),
        (d * d) * (n2 * n2) <= (m2 * m2) * (k * k),
        (d * d) * (n3 * n3) <= (m3 * m3) * (k * k),
        m1 * m1 + m2 * m2 + m3 * m3 <= d * d + 2 * d,
    ensures
        n1 * n1 + n2 * n2 + n3 * n3 <= k * k + 2 * k,
{
    let dd: int = d * d;
    let kk: int = k * k;
    let sn2: int = n1 * n1 + n2 * n2 + n3 * n3;
    let sm2: int = m1 * m1 + m2 * m2 + m3 * m3;
    lemma_mul_is_distributive_add(dd, n1 * n1 + n2 * n2, n3 * n3);
    lemma_mul_is_distributive_add(dd, n1 * n1, n2 * n2);
    assert(dd * sn2 == dd * (n1 * n1) + dd * (n2 * n2) + dd * (n3 * n3));
    lemma_mul_is_distributive_add_other_way(kk, m1 * m1 + m2 * m2, m3 * m3);
    lemma_mul_is_distributive_add_other_way(kk, m1 * m1, m2 * m2);
    assert(sm2 * kk == (m1 * m1) * kk + (m2 * m2) * kk + (m3 * m3) * kk);
    assert(dd * sn2 <= sm2 * kk);
    assert(kk >= 0) by (nonlinear_arith)
        requires
            kk == k * k,
    ;
    assert(dd > 0) by (nonlinear_arith)
        requires
            dd == d * d,
            0 < d,
    ;
    lemma_mul_inequality(sm2, dd + 2 * d, kk);
    lemma_mul_is_distributive_add_other_way(kk, dd, 2 * d);
    assert((2 * d) * kk <= dd * (2 * k)) by (nonlinear_arith)
        requires
            0 < d,
            0 < k,
            k <= d,
            dd == d * d,
            kk == k * k,
    ;
    lemma_mul_is_distributive_add(dd, kk, 2 * k);
    assert(dd * sn2 <= dd * (kk + 2 * k));
    assert(sn2 <= kk + 2 * k) by (nonlinear_arith)
        requires
            dd * sn2 <= dd * (kk + 2 * k),
            dd > 0,
    ;
}

/// The 3-term Cauchy inequality.
proof fn lemma_cauchy3(a: int, b: int, c: int)
    by (nonlinear_arith)
    ensures
        (a + b + c) * (a + b + c) <= 3 * (a * a + b * b + c * c),
{
}

/// A magnitude sum whose square stays under `3 * (d + 1)^2` stays under `2d + 2`.
proof fn lemma_sum_mag_bound(s: int, d: int)
    by (nonlinear_arith)
    requires
        0 <= s,
        0 < d,
        s * s <= 3 * (d * d + 2 * d),
    ensures
        s <= 2 * d + 1,
{
}

/// Summing the squared per-axis lower bounds and cancelling `d * d`.
proof fn lemma_sum_lower(n1: int, n2: int, n3: int, m1: int, m2: int, m3: int, k: int, d: int)
    requires
        0 < d,
        0 < k,
        k <= d,
        0 <= m1,
        0 <= m2,
        0 <= m3,
        (d * d) * (n1 * n1) >= (m1 * m1) * (k * k) - 2 * ((m1 * k) * d),
        (d * d) * (n2 * n2) >= (m2 * m2) * (k * k) - 2 * ((m2 * k) * d),
        (d * d) * (n3 * n3) >= (m3 * m3) * (k * k) - 2 * ((m3 * k) * d),
        d * d <= m1 * m1 + m2 * m2 + m3 * m3,
        m1 + m2 + m3 <= 2 * d + 1,
    ensures
        n1 * n1 + n2 * n2 + n3 * n3 >= k * k - 4 * k - 2,
{
    let dd: int = d * d;
    let kk: int = k * k;
    let sm2: int = m1 * m1 + m2 * m2 + m3 * m3;
    let sn2: int = n1 * n1 + n2 * n2 + n3 * n3;
    let sm: int = m1 + m2 + m3;
    lemma_mul_is_distributive_add(dd, n1 * n1 + n2 * n2, n3 * n3);
    lemma_mul_is_distributive_add(dd, n1 * n1, n2 * n2);
    assert(dd * sn2 == dd * (n1 * n1) + dd * (n2 * n2) + dd * (n3 * n3));
    lemma_mul_is_distributive_add_other_way(kk, m1 * m1 + m2 * m2, m3 * m3);
    lemma_mul_is_distributive_add_other_way(kk, m1 * m1, m2 * m2);
    assert(sm2 * kk == (m1 * m1) * kk + (m2 * m2) * kk + (m3 * m3) * kk);
    lemma_mul_is_distributive_add_other_way(k, m1 + m2, m3);
    lemma_mul_is_distributive_add_other_way(k, m1, m2);
    assert(sm * k == m1 * k + m2 * k + m3 * k);
    lemma_mul_is_distributive_add_other_way(d, m1 * k + m2 * k, m3 * k);
    lemma_mul_is_distributive_add_other_way(d, m1 * k, m2 * k);
    assert((sm * k) * d == (m1 * k) * d + (m2 * k) * d + (m3 * k) * d);
    assert((d * d) * sn2 >= sm2 * (k * k) - 2 * ((sm * k) * d));
    assert(kk >= 0) by (nonlinear_arith)
        requires
            kk == k * k,
    ;
    assert(dd > 0) by (nonlinear_arith)
        requires
            dd == d * d,
            0 < d,
    ;
    lemma_mul_inequality(dd, sm2, kk);
    assert((d * d) * sn2 >= (d * d) * (k * k) - 2 * ((sm * k) * d));
    assert(2 * ((sm * k) * d) <= 2 * (((2 * d + 1) * k) * d)) by (nonlinear_arith)
        requires
            sm <= 2 * d + 1,
            0 <= k,
            0 < d,
    ;
    assert((d * d) * sn2 >= (d * d) * (k * k - 4 * k - 2)) by (nonlinear_arith)
        requires
            (d * d) * sn2 >= (d * d) * (k * k) - 2 * (((2 * d + 1) * k) * d),
            0 < k,
            k <= d,
            0 < d,
    ;
    assert(sn2 >= k * k - 4 * k - 2) by (nonlinear_arith)
        requires
            (d * d) * sn2 >= (d * d) * (k * k - 4 * k - 2),
            0 < d,
    ;
}

/// Law: once a position coincides with its target, a movement update leaves
/// it unchanged, whatever the step.
pub proof fn lemma_move_once_fixed_point(p: Vec3Fx, t: Vec3Fx, step: int)
    requires
        p == t,
        0 <= step,
    ensures
        spec_move_once(p, t, step) == p,
{
    lemma_sq_nonneg(0);
    assert(dist2(p, t) == 0);
    assert(fsqrt(0) == 0);
}

/// Law: once the distance to the target is within the step, a movement
/// update lands exactly on the target.
pub proof fn lemma_move_once_reaches_target(p: Vec3Fx, t: Vec3Fx, step: int)
    requires
        dist(p, t) <= step,
    ensures
        spec_move_once(p, t, step) == t,
{
}

/// Law: a movement update with `0 < step < distance` shortens the distance
/// to the target to `distance - step`, up to fixed-point rounding: the new
/// distance is never more than `distance - step`, and (once `distance - step`
/// is at least 6) never more than 3 thousandths of a unit short of it.
pub proof fn lemma_move_once_distance(p: Vec3Fx, t: Vec3Fx, step: int)
    requires
        in_range(p),
        in_range(t),
        0 < step,
        step < dist(p, t),
    ensures
        dist(spec_move_once(p, t, step), t) <= dist(p, t) - step,
        dist(p, t) - step >= 6 ==> dist(spec_move_once(p, t, step), t) >= dist(p, t) - step - 3,
{
    let d2: int = dist2(p, t);
    lemma_dist2_nonneg(p, t);
    let d: int = dist(p, t);
    lemma_fsqrt_bounds(d2);
    assert((d + 1) * (d + 1) == d * d + 2 * d + 1) by (nonlinear_arith);
    assert(d * d <= d2 <= d * d + 2 * d);
    let k: int = d - step;
    let m1: int = iabs(p.x - t.x);
    let m2: int = iabs(p.y - t.y);
    let m3: int = iabs(p.z - t.z);
    lemma_sq_nonneg(p.x - t.x);
    lemma_sq_nonneg(p.y - t.y);
    lemma_sq_nonneg(p.z - t.z);
    assert(d2 == m1 * m1 + m2 * m2 + m3 * m3);
    let n1: int = (m1 * k) / d;
    let n2: int = (m2 * k) / d;
    let n3: int = (m3 * k) / d;
    lemma_scaled_le(m1, k, d);
    lemma_scaled_le(m2, k, d);
    lemma_scaled_le(m3, k, d);
    lemma_fundamental_div_mod(m1 * k, d);
    lemma_fundamental_div_mod(m2 * k, d);
    lemma_fundamental_div_mod(m3 * k, d);
    lemma_mod_bound(m1 * k, d);
    lemma_mod_bound(m2 * k, d);
    lemma_mod_bound(m3 * k, d);
    let q = spec_move_once(p, t, step);
    let a1: int = axis_move(p.x - t.x, k, d);
    let a2: int = axis_move(p.y - t.y, k, d);
    let a3: int = axis_move(p.z - t.z, k, d);
    assert(iabs(a1) == n1 && iabs(a2) == n2 && iabs(a3) == n3);
    assert(q.x == t.x + a1 && q.y == t.y + a2 && q.z == t.z + a3);
    lemma_sq_nonneg(a1);
    lemma_sq_nonneg(a2);
    lemma_sq_nonneg(a3);
    assert(sq(n1) == n1 * n1 && sq(n2) == n2 * n2 && sq(n3) == n3 * n3);
    assert(dist2(q, t) == n1 * n1 + n2 * n2 + n3 * n3);
    lemma_axis_sq_upper(m1, k, d, n1);
    lemma_axis_sq_upper(m2, k, d, n2);
    lemma_axis_sq_upper(m3, k, d, n3);
    lemma_sum_upper(n1, n2, n3, m1, m2, m3, k, d);
    assert((k + 1) * (k + 1) == k * k + 2 * k + 1) by (nonlinear_arith);
    lemma_fsqrt_le(dist2(q, t), k);
    if k >= 6 {
        lemma_axis_sq_lower(m1, k, d, n1);
        lemma_axis_sq_lower(m2, k, d, n2);
        lemma_axis_sq_lower(m3, k, d, n3);
        lemma_cauchy3(m1, m2, m3);
        lemma_sum_mag_bound(m1 + m2 + m3, d);
        lemma_sum_lower(n1, n2, n3, m1, m2, m3, k, d);
        assert((k - 3) * (k - 3) <= k * k - 4 * k - 2) by (nonlinear_arith)
            requires
                k >= 6,
        ;
        lemma_fsqrt_ge(dist2(q, t), k - 3);
    }
}

/// A movement update keeps the position within the coordinate bound: each
/// coordinate of the result lies between the target's and the position's.
pub proof fn lemma_move_once_in_range(p: Vec3Fx, t: Vec3Fx, step: int)
    requires
        in_range(p),
        in_range(t),
        0 <= step,
    ensures
        in_range(spec_move_once(p, t, step)),
{
    let d2: int = dist2(p, t);
    lemma_dist2_nonneg(p, t);
    let d: int = dist(p, t);
    lemma_fsqrt_bounds(d2);
    if d <= step {
    } else {
        let keep: int = d - step;
        lemma_scaled_le(iabs(p.x - t.x), keep, d);
        lemma_scaled_le(iabs(p.y - t.y), keep, d);
        lemma_scaled_le(iabs(p.z - t.z), keep, d);
        assert(iabs(axis_move(p.x - t.x, keep, d)) <= iabs(p.x - t.x));
        assert(iabs(axis_move(p.y - t.y, keep, d)) <= iabs(p.y - t.y));
        assert(iabs(axis_move(p.z - t.z, keep, d)) <= iabs(p.z - t.z));
    }
}

/// The position after `n` movement updates toward `t` with step-rate `step`.
pub open spec fn iter_move(p: Vec3Fx, t: Vec3Fx, step: int, n: nat) -> Vec3Fx
    decreases n,
{
    if n == 0 {
        p
    } else {
        iter_move(spec_move_once(p, t, step), t, step, (n - 1) as nat)
    }
}

/// Law: the movement converges. Once `n` steps cover the initial distance,
/// the position after `n` movement updates sits exactly on the target — and,
/// the target being a fixed point, stays there under further updates.
pub proof fn lemma_move_converges(p: Vec3Fx, t: Vec3Fx, step: int, n: nat)
    requires
        in_range(p),
        in_range(t),
        0 < step,
        1 <= n,
        dist(p, t) <= n * step,
    ensures
        iter_move(p, t, step, n) == t,
    decreases n,
{
    let q = spec_move_once(p, t, step);
    lemma_move_once_in_range(p, t, step);
    assert(iter_move(p, t, step, n) == iter_move(q, t, step, (n - 1) as nat));
    if dist(p, t) <= step {
        lemma_move_once_reaches_target(p, t, step);
        if n == 1 {
            assert(iter_move(q, t, step, 0) == q);
        } else {
            lemma_dist2_nonneg(t, t);
            lemma_sq_nonneg(0);
            assert(dist2(t, t) == 0);
            assert(dist(t, t) == 0);
            assert(0 <= (n - 1) * step) by (nonlinear_arith)
                requires
                    0 < step,
                    1 <= n as int,
            ;
            lemma_move_converges(t, t, step, (n - 1) as nat);
        }
    } else {
        lemma_move_once_distance(p, t, step);
        assert(n >= 2) by (nonlinear_arith)
            requires
                step < dist(p, t),
                dist(p, t) <= n as int * step,
                0 < step,
                1 <= n as int,
        ;
        assert(dist(q, t) <= (n - 1) as int * step) by (nonlinear_arith)
            requires
                dist(q, t) <= dist(p, t) - step,
                dist(p, t) <= n as int * step,
                2 <= n as int,
        ;
        lemma_move_converges(q, t, step, (n - 1) as nat);
    }
}

} // verus!
