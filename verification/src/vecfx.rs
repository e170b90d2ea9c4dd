//! Fixed-point planar vectors.
//!
//! Coordinates and directions are held in milli-units: one world unit is
//! `SCALE` steps of an `i64`. A direction is "unit length" when its squared
//! norm lies within `UNIT_SLACK` of `SCALE * SCALE`; the slack absorbs the
//! rounding that integer normalization introduces. The `z` component exists
//! only for draw ordering and is pinned to zero throughout.

use vstd::prelude::*;

verus! {

use crate::SCALE;
use crate::UNIT_SLACK;
use crate::MIN_NORM_SQ;
use crate::NORM_INPUT_LIMIT;

/// A 3-component vector in milli-units; the simulation is planar, so `z`
/// is zero everywhere.
#[derive(Clone, Copy, Debug, PartialEq, Eq, Structural)]
pub struct Vec3Fx {
    pub x: i64,
    pub y: i64,
    pub z: i64,
}

impl Vec3Fx {
    pub open spec fn norm_sq(self) -> int {
        self.x * self.x + self.y * self.y + self.z * self.z
    }

    /// Unit length within the fixed-point tolerance, and planar.
    pub open spec fn is_unit(self) -> bool {
        &&& self.z == 0
        &&& SCALE * SCALE - UNIT_SLACK <= self.norm_sq() <= SCALE * SCALE + UNIT_SLACK
    }

    pub open spec fn is_zero(self) -> bool {
        self.x == 0 && self.y == 0 && self.z == 0
    }
}

/// A unit direction's components are at most 1002 milli-units in magnitude.
pub proof fn lemma_unit_component_bounds(v: Vec3Fx)
    requires
        v.is_unit(),
    ensures
        -1002 <= v.x <= 1002,
        -1002 <= v.y <= 1002,
        v.z == 0,
{
    assert(-1002 <= v.x <= 1002 && -1002 <= v.y <= 1002) by (nonlinear_arith)
        requires
            v.x * v.x + v.y * v.y + v.z * v.z <= SCALE * SCALE + UNIT_SLACK,
            v.z == 0,
            SCALE == 1000,
            UNIT_SLACK == 4004,
    ;
}

pub fn vec3fx(x: i64, y: i64) -> (r: Vec3Fx)
    ensures
        r.x == x,
        r.y == y,
        r.z == 0,
{
    Vec3Fx { x, y, z: 0 }
}

/// Runtime check of `Vec3Fx::is_unit`, for callers outside the verified
/// core.
pub fn is_unit_exec(v: &Vec3Fx) -> (b: bool)
    ensures
        b == v.is_unit(),
{
    if v.z != 0 {
        return false;
    }
    if v.x < -2000 || v.x > 2000 || v.y < -2000 || v.y > 2000 {
        proof {
            assert(v.norm_sq() > SCALE * SCALE + UNIT_SLACK) by (nonlinear_arith)
                requires
                    v.x < -2000 || v.x > 2000 || v.y < -2000 || v.y > 2000,
                    v.z == 0,
                    v.norm_sq() == v.x * v.x + v.y * v.y + v.z * v.z,
                    SCALE == 1000,
                    UNIT_SLACK == 4004,
            ;
        }
        return false;
    }
    proof {
        assert(0 <= v.x * v.x <= 4_000_000 && 0 <= v.y * v.y <= 4_000_000 && v.z * v.z == 0)
            by (nonlinear_arith)
            requires
                -2000 <= v.x <= 2000,
                -2000 <= v.y <= 2000,
                v.z == 0,
        ;
    }
    let m: i64 = v.x * v.x + v.y * v.y;
    SCALE * SCALE - UNIT_SLACK <= m && m <= SCALE * SCALE + UNIT_SLACK
}

/// z-component of the cross product of two planar vectors; its magnitude is
/// `|a| * |b| * sin` of the angle between them.
pub open spec fn cross_z(a: Vec3Fx, b: Vec3Fx) -> int {
    a.x * b.y - a.y * b.x
}

/// Planar dot product; `|a| * |b| * cos` of the angle between them.
pub open spec fn dot2(a: Vec3Fx, b: Vec3Fx) -> int {
    a.x * b.x + a.y * b.y
}

/// Largest `r` with `r * r <= m`, defined by counting up.
pub open spec fn isqrt_spec(m: nat) -> nat
    decreases m,
{
    if m == 0 {
        0
    } else {
        let p = isqrt_spec((m - 1) as nat);
        if (p + 1) * (p + 1) <= m {
            (p + 1) as nat
        } else {
            p
        }
    }
}

pub proof fn lemma_isqrt_spec_bounds(m: nat)
    ensures
        isqrt_spec(m) * isqrt_spec(m) <= m,
        m < (isqrt_spec(m) + 1) * (isqrt_spec(m) + 1),
    decreases m,
{
    let r = isqrt_spec(m);
    if m == 0 {
        assert(r == 0);
        assert(r * r <= m && m < (r + 1) * (r + 1)) by (nonlinear_arith)
            requires
                r == 0,
                m == 0,
        ;
    } else {
        let p = isqrt_spec((m - 1) as nat);
        lemma_isqrt_spec_bounds((m - 1) as nat);
        assert(p * p <= m - 1);
        assert(m - 1 < (p + 1) * (p + 1));
        if (p + 1) * (p + 1) <= m {
            assert(r == p + 1);
            assert(m == (p + 1) * (p + 1));
            assert((p + 1) * (p + 1) < (p + 2) * (p + 2)) by (nonlinear_arith)
                requires
                    p >= 0,
            ;
            assert(r * r <= m);
            assert(m < (r + 1) * (r + 1));
        } else {
            assert(r == p);
            assert(r * r <= m);
            assert(m < (r + 1) * (r + 1));
        }
    }
}

pub proof fn lemma_isqrt_unique(m: nat, r: nat)
    requires
        r * r <= m,
        m < (r + 1) * (r + 1),
    ensures
        r == isqrt_spec(m),
{
    let s = isqrt_spec(m);
    lemma_isqrt_spec_bounds(m);
    if r < s {
        assert((r + 1) * (r + 1) <= s * s) by (nonlinear_arith)
            requires
                r + 1 <= s,
                r >= 0,
        ;
    }
    if s < r {
        assert((s + 1) * (s + 1) <= r * r) by (nonlinear_arith)
            requires
                s + 1 <= r,
                s >= 0,
        ;
    }
}

/// Integer square root by binary search.
pub fn isqrt(m: i64) -> (r: i64)
    requires
        0 <= m <= 16_000_000_000_000,
    ensures
        0 <= r <= 4_000_000,
        r * r <= m,
        m < (r + 1) * (r + 1),
        r == isqrt_spec(m as nat),
{
    let mut lo: i64 = 0;
    let mut hi: i64 = 4_000_000;
    assert(m < 4_000_001i64 * 4_000_001i64) by (nonlinear_arith)
        requires
            m <= 16_000_000_000_000,
    ;
    while lo < hi
        invariant
            0 <= lo <= hi <= 4_000_000,
            lo * lo <= m,
            m < (hi + 1) * (hi + 1),
        decreases hi - lo,
    {
        let mid: i64 = lo + (hi - lo + 1) / 2;
        proof {
            assert(0 <= mid * mid <= 16_000_000_000_000_000) by (nonlinear_arith)
                requires
                    0 <= mid <= 4_000_000,
            ;
        }
        if mid * mid <= m {
            lo = mid;
        } else {
            hi = mid - 1;
        }
    }
    proof {
        lemma_isqrt_unique(m as nat, lo as nat);
    }
    lo
}

/// Quotient of `a * SCALE / n` rounded toward zero.
pub open spec fn scaled_div(a: int, n: int) -> int {
    if a >= 0 {
        (a * SCALE) / n
    } else {
        -(((-a) * SCALE) / n)
    }
}

/// The direction `v` rescaled to unit length (within tolerance).
pub open spec fn normalize_spec(v: Vec3Fx) -> Vec3Fx {
    let n = isqrt_spec(v.norm_sq() as nat) as int;
    Vec3Fx { x: scaled_div(v.x as int, n) as i64, y: scaled_div(v.y as int, n) as i64, z: 0 }
}

pub proof fn lemma_sq_le_converse(a: int, b: int)
    requires
        0 <= a,
        0 <= b,
        a * a <= b * b,
    ensures
        a <= b,
{
    if b < a {
        assert(b * b < a * a) by (nonlinear_arith)
            requires
                0 <= b < a,
        ;
    }
}

/// Rounding one component toward zero during normalization moves
/// `n * q` less than `n` away from `a * SCALE`.
pub proof fn lemma_scaled_div_close(a: int, n: int)
    requires
        1 <= n,
        -NORM_INPUT_LIMIT <= a <= NORM_INPUT_LIMIT,
    ensures
        ({
            let q = scaled_div(a, n);
            &&& -n < n * q - a * SCALE < n
            &&& -3_000_000_000 <= q <= 3_000_000_000
        }),
{
    let q = scaled_div(a, n);
    if a >= 0 {
        let am = a * SCALE;
        vstd::arithmetic::div_mod::lemma_fundamental_div_mod(am, n);
        vstd::arithmetic::div_mod::lemma_mod_bound(am, n);
        vstd::arithmetic::div_mod::lemma_div_pos_is_pos(am, n);
        assert(q == am / n);
        assert(n * q - am == -(am % n));
        assert(q <= q * n) by (nonlinear_arith)
            requires
                q >= 0,
                n >= 1,
        ;
        assert(q * n == n * q) by (nonlinear_arith);
    } else {
        let bm = (-a) * SCALE;
        vstd::arithmetic::div_mod::lemma_fundamental_div_mod(bm, n);
        vstd::arithmetic::div_mod::lemma_mod_bound(bm, n);
        vstd::arithmetic::div_mod::lemma_div_pos_is_pos(bm, n);
        let qb = bm / n;
        assert(q == -qb);
        assert(n * qb - bm == -(bm % n));
        assert(n * q == -(n * qb)) by (nonlinear_arith)
            requires
                q == -qb,
        ;
        assert(a * SCALE == -bm);
        assert(qb <= qb * n) by (nonlinear_arith)
            requires
                qb >= 0,
                n >= 1,
        ;
        assert(qb * n == n * qb) by (nonlinear_arith);
    }
}

/// One axis of the normalization bound: the rounded quotient `q` of
/// `x * SCALE / n` satisfies `x*x*S*S - 2*x*S*n <= q*q*n*n <= x*x*S*S`.
proof fn lemma_axis_div_bounds(x: int, n: int, q: int)
    requires
        0 <= x,
        500 <= n,
        q == (x * SCALE) / n,
    ensures
        0 <= q,
        q * n <= x * SCALE,
        x * SCALE < q * n + n,
        q * q * (n * n) <= (x * x) * (SCALE * SCALE),
        q * q * (n * n) >= (x * x) * (SCALE * SCALE) - 2 * (x * SCALE) * n,
{
    let xs = x * SCALE;
    assert(xs >= 0) by (nonlinear_arith)
        requires
            x >= 0,
            xs == x * SCALE,
            SCALE == 1000,
    ;
    vstd::arithmetic::div_mod::lemma_fundamental_div_mod(xs, n);
    assert(0 <= xs % n < n) by {
        vstd::arithmetic::div_mod::lemma_mod_bound(xs, n);
    }
    assert(q >= 0) by {
        vstd::arithmetic::div_mod::lemma_div_pos_is_pos(xs, n);
    }
    assert(xs == n * q + xs % n);
    assert(n * q == q * n) by (nonlinear_arith);
    assert(q * n <= xs);
    assert(xs < q * n + n);
    // upper: (q*n)^2 <= xs^2
    assert((q * n) * (q * n) <= xs * xs) by (nonlinear_arith)
        requires
            0 <= q * n,
            q * n <= xs,
    ;
    assert((q * n) * (q * n) == q * q * (n * n)) by (nonlinear_arith);
    assert(xs * xs == (x * x) * (SCALE * SCALE)) by (nonlinear_arith)
        requires
            xs == x * SCALE,
    ;
    // lower: split on whether the quotient is zero
    if xs < n {
        assert(q * n < n);
        assert(q < 1) by (nonlinear_arith)
            requires
                q * n < n,
                n >= 500,
                q >= 0,
        ;
        assert(q == 0);
        assert(xs * xs - 2 * xs * n <= 0) by (nonlinear_arith)
            requires
                0 <= xs < n,
        ;
        assert(q * q * (n * n) == 0) by (nonlinear_arith)
            requires
                q == 0,
        ;
    } else {
        assert(q * n >= xs - n >= 0);
        assert((q * n) * (q * n) >= (xs - n) * (xs - n)) by (nonlinear_arith)
            requires
                q * n >= xs - n,
                xs - n >= 0,
        ;
        assert((xs - n) * (xs - n) >= xs * xs - 2 * xs * n) by (nonlinear_arith);
    }
}

/// The normalization bound: dividing a vector of norm about `n` by `n` and
/// scaling by `SCALE` yields a vector whose squared norm is within
/// `UNIT_SLACK` of `SCALE * SCALE`.
proof fn lemma_normalize_unit(x: int, y: int, n: int, qx: int, qy: int)
    requires
        0 <= x,
        0 <= y,
        500 <= n,
        n * n <= x * x + y * y,
        x * x + y * y < (n + 1) * (n + 1),
        qx == (x * SCALE) / n,
        qy == (y * SCALE) / n,
    ensures
        SCALE * SCALE - UNIT_SLACK <= qx * qx + qy * qy <= SCALE * SCALE + UNIT_SLACK,
        0 <= qx,
        0 <= qy,
{
    let m = x * x + y * y;
    let s2 = SCALE * SCALE;
    lemma_axis_div_bounds(x, n, qx);
    lemma_axis_div_bounds(y, n, qy);
    // upper bound
    assert((qx * qx + qy * qy) * (n * n) <= m * s2) by (nonlinear_arith)
        requires
            qx * qx * (n * n) <= (x * x) * s2,
            qy * qy * (n * n) <= (y * y) * s2,
            m == x * x + y * y,
    ;
    assert(m <= n * n + 2 * n) by (nonlinear_arith)
        requires
            m < (n + 1) * (n + 1),
    ;
    assert(m * s2 <= (s2 + UNIT_SLACK) * (n * n)) by (nonlinear_arith)
        requires
            m <= n * n + 2 * n,
            n >= 500,
            s2 == 1_000_000,
            UNIT_SLACK == 4004,
    ;
    assert(qx * qx + qy * qy <= s2 + UNIT_SLACK) by (nonlinear_arith)
        requires
            (qx * qx + qy * qy) * (n * n) <= (s2 + UNIT_SLACK) * (n * n),
            n >= 500,
    ;
    // lower bound
    assert((qx * qx + qy * qy) * (n * n) >= m * s2 - 2 * SCALE * n * (x + y)) by (nonlinear_arith)
        requires
            qx * qx * (n * n) >= (x * x) * s2 - 2 * (x * SCALE) * n,
            qy * qy * (n * n) >= (y * y) * s2 - 2 * (y * SCALE) * n,
            m == x * x + y * y,
            s2 == SCALE * SCALE,
    ;
    // x + y <= 1001 * n / 500, by squaring
    assert((500 * (x + y)) * (500 * (x + y)) <= (1001 * n) * (1001 * n)) by (nonlinear_arith)
        requires
            m == x * x + y * y,
            m <= n * n + 2 * n,
            n >= 500,
    ;
    assert(500 * (x + y) <= 1001 * n) by {
        lemma_sq_le_converse(500 * (x + y), 1001 * n);
    }
    assert(2 * SCALE * n * (x + y) <= UNIT_SLACK * (n * n)) by (nonlinear_arith)
        requires
            500 * (x + y) <= 1001 * n,
            n >= 500,
            SCALE == 1000,
            UNIT_SLACK == 4004,
    ;
    assert(m * s2 >= (n * n) * s2) by (nonlinear_arith)
        requires
            m >= n * n,
            s2 >= 0,
    ;
    assert(qx * qx + qy * qy >= s2 - UNIT_SLACK) by (nonlinear_arith)
        requires
            (qx * qx + qy * qy) * (n * n) >= (n * n) * s2 - UNIT_SLACK * (n * n),
            n >= 500,
    ;
}

/// Rescale `v` to unit length (within `UNIT_SLACK` tolerance). The result is
/// exactly `normalize_spec(v)`: each component becomes
/// `v * SCALE / |v|`, rounded toward zero.
pub fn normalize(v: Vec3Fx) -> (r: Vec3Fx)
    requires
        v.z == 0,
        -NORM_INPUT_LIMIT <= v.x <= NORM_INPUT_LIMIT,
        -NORM_INPUT_LIMIT <= v.y <= NORM_INPUT_LIMIT,
        v.norm_sq() >= MIN_NORM_SQ,
    ensures
        r == normalize_spec(v),
        r.is_unit(),
{
    proof {
        assert(v.x * v.x <= NORM_INPUT_LIMIT * NORM_INPUT_LIMIT) by (nonlinear_arith)
            requires
                -NORM_INPUT_LIMIT <= v.x <= NORM_INPUT_LIMIT,
                NORM_INPUT_LIMIT == 2_000_000,
        ;
        assert(v.y * v.y <= NORM_INPUT_LIMIT * NORM_INPUT_LIMIT) by (nonlinear_arith)
            requires
                -NORM_INPUT_LIMIT <= v.y <= NORM_INPUT_LIMIT,
                NORM_INPUT_LIMIT == 2_000_000,
        ;
        assert(v.x * v.x >= 0) by (nonlinear_arith);
        assert(v.y * v.y >= 0) by (nonlinear_arith);
    }
    let m: i64 = v.x * v.x + v.y * v.y;
    let n: i64 = isqrt(m);
    proof {
        assert(n >= 500) by (nonlinear_arith)
            requires
                m < (n + 1) * (n + 1),
                m >= MIN_NORM_SQ,
                MIN_NORM_SQ == 250_000,
                n >= 0,
        ;
    }
    let xm: i64 = if v.x >= 0 { v.x } else { -v.x };
    let ym: i64 = if v.y >= 0 { v.y } else { -v.y };
    proof {
        assert(xm * xm == v.x * v.x) by (nonlinear_arith)
            requires
                xm == v.x || xm == -v.x,
        ;
        assert(ym * ym == v.y * v.y) by (nonlinear_arith)
            requires
                ym == v.y || ym == -v.y,
        ;
        assert(0 <= xm * SCALE <= 2_000_000_000) by (nonlinear_arith)
            requires
                0 <= xm <= NORM_INPUT_LIMIT,
                NORM_INPUT_LIMIT == 2_000_000,
                SCALE == 1000,
        ;
        assert(0 <= ym * SCALE <= 2_000_000_000) by (nonlinear_arith)
            requires
                0 <= ym <= NORM_INPUT_LIMIT,
                NORM_INPUT_LIMIT == 2_000_000,
                SCALE == 1000,
        ;
    }
    let qx: i64 = (xm * SCALE) / n;
    let qy: i64 = (ym * SCALE) / n;
    proof {
        lemma_normalize_unit(xm as int, ym as int, n as int, qx as int, qy as int);
    }
    let rx: i64 = if v.x >= 0 { qx } else { -qx };
    let ry: i64 = if v.y >= 0 { qy } else { -qy };
    let r = Vec3Fx { x: rx, y: ry, z: 0 };
    proof {
        assert(rx * rx == qx * qx) by (nonlinear_arith)
            requires
                rx == qx || rx == -qx,
        ;
        assert(ry * ry == qy * qy) by (nonlinear_arith)
            requires
                ry == qy || ry == -qy,
        ;
    }
    r
}

} // verus!
