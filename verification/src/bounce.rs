//! The boundary confiner and the bounce reflector.
//!
//! Confinement clamps a position into the arena, with a margin of the
//! entity's radius, and reports which side of which axis was crossed.
//! A crossing mirrors the crossing component of the direction, blends in a
//! small random perturbation, and renormalizes.

use vstd::prelude::*;

verus! {

use crate::SCALE;
use crate::BOUNCE_RANDOMNESS;
use crate::MIN_NORM_SQ;
use crate::NORM_INPUT_LIMIT;
use crate::PLAYER_RADIUS;
use crate::ENEMY_RADIUS;
use crate::vecfx::Vec3Fx;
use crate::vecfx::cross_z;
use crate::vecfx::dot2;
use crate::vecfx::normalize;
use crate::vecfx::normalize_spec;
use crate::vecfx::isqrt_spec;
use crate::vecfx::scaled_div;
use crate::vecfx::lemma_unit_component_bounds;
use crate::vecfx::lemma_sq_le_converse;
use crate::vecfx::lemma_scaled_div_close;
use crate::vecfx::lemma_isqrt_spec_bounds;
use crate::entities::Arena;
use crate::entities::Player;
use crate::entities::Enemy;
use crate::entities::in_bounds;

/// What confinement found on one axis.
#[derive(Clone, Copy, Debug, PartialEq, Eq, Structural)]
pub enum AxisHit {
    Inside,
    Low,
    High,
}

/// A confined position together with the crossing found on each axis.
#[derive(Clone, Copy, Debug, PartialEq, Eq, Structural)]
pub struct Confined {
    pub position: Vec3Fx,
    pub x_hit: AxisHit,
    pub y_hit: AxisHit,
}

pub open spec fn clamp_axis(c: int, lo: int, hi: int) -> int {
    if c < lo {
        lo
    } else if c > hi {
        hi
    } else {
        c
    }
}

pub open spec fn axis_hit(c: int, lo: int, hi: int) -> AxisHit {
    if c < lo {
        AxisHit::Low
    } else if c > hi {
        AxisHit::High
    } else {
        AxisHit::Inside
    }
}

/// Clamp `p` into the arena with margin `radius`, flagging each axis that
/// crossed. Both axes are checked independently in the same call.
pub open spec fn confine_spec(p: Vec3Fx, radius: int, a: Arena) -> Confined {
    Confined {
        position: Vec3Fx {
            x: clamp_axis(p.x as int, radius, a.width - radius) as i64,
            y: clamp_axis(p.y as int, radius, a.height - radius) as i64,
            z: p.z,
        },
        x_hit: axis_hit(p.x as int, radius, a.width - radius),
        y_hit: axis_hit(p.y as int, radius, a.height - radius),
    }
}

/// The boundary confiner: per axis, clamp the coordinate to
/// `[radius, bound - radius]` and flag which side, if either, was crossed.
pub fn confine(p: Vec3Fx, radius: i64, a: Arena) -> (r: Confined)
    requires
        0 <= radius,
        2 * radius <= a.width,
        2 * radius <= a.height,
        p.z == 0,
    ensures
        r == confine_spec(p, radius as int, a),
        in_bounds(r.position, radius as int, a),
        r.x_hit == AxisHit::Inside && r.y_hit == AxisHit::Inside ==> r.position == p,
{
    let x_lo = radius;
    let x_hi = a.width - radius;
    let y_lo = radius;
    let y_hi = a.height - radius;
    let mut x = p.x;
    let mut y = p.y;
    let mut x_hit = AxisHit::Inside;
    let mut y_hit = AxisHit::Inside;
    if x < x_lo {
        x = x_lo;
        x_hit = AxisHit::Low;
    } else if x > x_hi {
        x = x_hi;
        x_hit = AxisHit::High;
    }
    if y < y_lo {
        y = y_lo;
        y_hit = AxisHit::Low;
    } else if y > y_hi {
        y = y_hi;
        y_hit = AxisHit::High;
    }
    Confined { position: Vec3Fx { x, y, z: 0 }, x_hit, y_hit }
}

/// Confinement idempotence: a position already inside the bounds is left
/// unchanged, and a clamped position re-clamps to itself with no crossing
/// flagged.
pub proof fn lemma_confine_idempotent(p: Vec3Fx, radius: int, a: Arena)
    requires
        0 <= radius,
        2 * radius <= a.width,
        2 * radius <= a.height,
        p.z == 0,
    ensures
        ({
            let once = confine_spec(p, radius, a);
            let twice = confine_spec(once.position, radius, a);
            &&& twice.position == once.position
            &&& twice.x_hit == AxisHit::Inside
            &&& twice.y_hit == AxisHit::Inside
        }),
        in_bounds(p, radius, a) ==> confine_spec(p, radius, a).position == p,
{
}

/// Mirror reflection: negate each direction component whose axis crossed.
pub open spec fn reflect_spec(d: Vec3Fx, hit_x: bool, hit_y: bool) -> Vec3Fx {
    Vec3Fx {
        x: if hit_x {
            (-d.x) as i64
        } else {
            d.x
        },
        y: if hit_y {
            (-d.y) as i64
        } else {
            d.y
        },
        z: d.z,
    }
}

/// The bounce reflector's mirror step: reflect the direction against each
/// crossed wall. Unit length is preserved exactly.
pub fn reflect(d: Vec3Fx, hit_x: bool, hit_y: bool) -> (r: Vec3Fx)
    requires
        d.is_unit(),
    ensures
        r == reflect_spec(d, hit_x, hit_y),
        r.is_unit(),
{
    proof {
        lemma_unit_component_bounds(d);
    }
    let x = if hit_x {
        -d.x
    } else {
        d.x
    };
    let y = if hit_y {
        -d.y
    } else {
        d.y
    };
    let r = Vec3Fx { x, y, z: 0 };
    proof {
        assert(r.x * r.x == d.x * d.x) by (nonlinear_arith)
            requires
                r.x == d.x || r.x == -d.x,
        ;
        assert(r.y * r.y == d.y * d.y) by (nonlinear_arith)
            requires
                r.y == d.y || r.y == -d.y,
        ;
    }
    r
}

/// Reflection sign law: a crossing on the x-axis alone flips the sign of
/// the direction's x-component and preserves its y-component (the random
/// perturbation is not part of this statement).
pub proof fn lemma_reflection_sign_law(d: Vec3Fx)
    requires
        d.is_unit(),
    ensures
        ({
            let r = reflect_spec(d, true, false);
            &&& r.x == -d.x
            &&& r.y == d.y
            &&& r.z == d.z
        }),
{
    lemma_unit_component_bounds(d);
}

/// Lagrange's identity in the plane: cross² + dot² == |a|²·|b|² (planar
/// parts).
pub proof fn lemma_lagrange(a: Vec3Fx, b: Vec3Fx)
    ensures
        cross_z(a, b) * cross_z(a, b) + dot2(a, b) * dot2(a, b) == (a.x * a.x + a.y * a.y) * (
        b.x * b.x + b.y * b.y),
{
    let c = cross_z(a, b);
    let d = dot2(a, b);
    let u1 = a.x * b.y;
    let u2 = a.y * b.x;
    let u3 = a.x * b.x;
    let u4 = a.y * b.y;
    assert(c * c == u1 * u1 - 2 * (u1 * u2) + u2 * u2) by (nonlinear_arith)
        requires
            c == u1 - u2,
    ;
    assert(d * d == u3 * u3 + 2 * (u3 * u4) + u4 * u4) by (nonlinear_arith)
        requires
            d == u3 + u4,
    ;
    assert(u1 * u2 == u3 * u4) by (nonlinear_arith)
        requires
            u1 == a.x * b.y,
            u2 == a.y * b.x,
            u3 == a.x * b.x,
            u4 == a.y * b.y,
    ;
    let s1 = a.x * a.x;
    let s2 = a.y * a.y;
    let t1 = b.x * b.x;
    let t2 = b.y * b.y;
    assert((s1 + s2) * (t1 + t2) == s1 * t1 + s1 * t2 + s2 * t1 + s2 * t2) by (nonlinear_arith);
    assert(u1 * u1 == s1 * t2) by (nonlinear_arith)
        requires
            u1 == a.x * b.y,
            s1 == a.x * a.x,
            t2 == b.y * b.y,
    ;
    assert(u2 * u2 == s2 * t1) by (nonlinear_arith)
        requires
            u2 == a.y * b.x,
            s2 == a.y * a.y,
            t1 == b.x * b.x,
    ;
    assert(u3 * u3 == s1 * t1) by (nonlinear_arith)
        requires
            u3 == a.x * b.x,
            s1 == a.x * a.x,
            t1 == b.x * b.x,
    ;
    assert(u4 * u4 == s2 * t2) by (nonlinear_arith)
        requires
            u4 == a.y * b.y,
            s2 == a.y * a.y,
            t2 == b.y * b.y,
    ;
}

/// The reflected direction with the weighted perturbation blended in,
/// scaled by `SCALE` to avoid any rounding: `blend_spec(r, p)` points along
/// `r + (BOUNCE_RANDOMNESS/SCALE) * p`.
pub open spec fn blend_spec(r: Vec3Fx, p: Vec3Fx) -> Vec3Fx {
    Vec3Fx {
        x: (SCALE * r.x + BOUNCE_RANDOMNESS * p.x) as i64,
        y: (SCALE * r.y + BOUNCE_RANDOMNESS * p.y) as i64,
        z: 0,
    }
}

/// The blend of two unit directions truncates nothing and lands far from
/// zero, inside the range that `normalize` accepts.
pub proof fn lemma_blend_norm(r: Vec3Fx, p: Vec3Fx)
    requires
        r.is_unit(),
        p.is_unit(),
    ensures
        ({
            let w = blend_spec(r, p);
            &&& w.x == SCALE * r.x + BOUNCE_RANDOMNESS * p.x
            &&& w.y == SCALE * r.y + BOUNCE_RANDOMNESS * p.y
            &&& w.z == 0
            &&& -NORM_INPUT_LIMIT <= w.x <= NORM_INPUT_LIMIT
            &&& -NORM_INPUT_LIMIT <= w.y <= NORM_INPUT_LIMIT
            &&& w.norm_sq() >= MIN_NORM_SQ
        }),
{
    lemma_unit_component_bounds(r);
    lemma_unit_component_bounds(p);
    let w = blend_spec(r, p);
    let rx = r.x as int;
    let ry = r.y as int;
    let px = p.x as int;
    let py = p.y as int;
    let r2 = rx * rx + ry * ry;
    let p2 = px * px + py * py;
    let d = dot2(r, p);
    assert(r.z * r.z == 0 && p.z * p.z == 0) by (nonlinear_arith)
        requires
            r.z == 0,
            p.z == 0,
    ;
    lemma_lagrange(r, p);
    assert(cross_z(r, p) * cross_z(r, p) >= 0) by (nonlinear_arith);
    assert(d * d <= r2 * p2);
    assert(0 <= r2 && 0 <= p2) by (nonlinear_arith)
        requires
            r2 == rx * rx + ry * ry,
            p2 == px * px + py * py,
    ;
    assert(r2 * p2 <= 1_004_004 * 1_004_004) by (nonlinear_arith)
        requires
            0 <= r2 <= 1_004_004,
            0 <= p2 <= 1_004_004,
    ;
    let dm = if d >= 0 {
        d
    } else {
        -d
    };
    assert(dm * dm == d * d) by (nonlinear_arith)
        requires
            dm == d || dm == -d,
    ;
    lemma_sq_le_converse(dm, 1_004_004);
    assert(-1_004_004 <= d <= 1_004_004);
    assert(w.norm_sq() == 1_000_000 * r2 + 100_000 * d + 2_500 * p2) by (nonlinear_arith)
        requires
            w.x == SCALE * rx + BOUNCE_RANDOMNESS * px,
            w.y == SCALE * ry + BOUNCE_RANDOMNESS * py,
            w.z == 0,
            w.norm_sq() == w.x * w.x + w.y * w.y + w.z * w.z,
            r2 == rx * rx + ry * ry,
            p2 == px * px + py * py,
            d == rx * px + ry * py,
            SCALE == 1000,
            BOUNCE_RANDOMNESS == 50,
    ;
    assert(r2 >= 995_996);
    assert(w.norm_sq() >= MIN_NORM_SQ);
}

/// Blend the unit perturbation `p` into the unit direction `r` with weight
/// `BOUNCE_RANDOMNESS / SCALE`. The result is far from zero, so it can be
/// renormalized.
pub fn blend(r: Vec3Fx, p: Vec3Fx) -> (w: Vec3Fx)
    requires
        r.is_unit(),
        p.is_unit(),
    ensures
        w == blend_spec(r, p),
        w.z == 0,
        w.x == SCALE * r.x + BOUNCE_RANDOMNESS * p.x,
        w.y == SCALE * r.y + BOUNCE_RANDOMNESS * p.y,
        -NORM_INPUT_LIMIT <= w.x <= NORM_INPUT_LIMIT,
        -NORM_INPUT_LIMIT <= w.y <= NORM_INPUT_LIMIT,
        w.norm_sq() >= MIN_NORM_SQ,
{
    proof {
        lemma_unit_component_bounds(r);
        lemma_unit_component_bounds(p);
        lemma_blend_norm(r, p);
    }
    let wx: i64 = SCALE * r.x + BOUNCE_RANDOMNESS * p.x;
    let wy: i64 = SCALE * r.y + BOUNCE_RANDOMNESS * p.y;
    Vec3Fx { x: wx, y: wy, z: 0 }
}

/// Bounded perturbation: the sine of the angle between the mirror-reflected
/// direction `r` and the blended direction `w = blend_spec(r, p)` is
/// `|cross_z(r, w)| / (|r|·|w|)`; this bound says that sine is at most
/// `(BOUNCE_RANDOMNESS / SCALE) · (|p| / |r|)` — for exactly unit `r` and
/// `p` that is 0.05, an angular deviation of at most arcsin(0.05).
pub proof fn lemma_bounded_perturbation(r: Vec3Fx, p: Vec3Fx)
    requires
        r.is_unit(),
        p.is_unit(),
    ensures
        ({
            let w = blend_spec(r, p);
            SCALE * SCALE * (cross_z(r, w) * cross_z(r, w)) <= BOUNCE_RANDOMNESS
                * BOUNCE_RANDOMNESS * (p.norm_sq() * w.norm_sq())
        }),
{
    lemma_unit_component_bounds(r);
    lemma_unit_component_bounds(p);
    let w = blend_spec(r, p);
    let rx = r.x as int;
    let ry = r.y as int;
    let px = p.x as int;
    let py = p.y as int;
    let r2 = rx * rx + ry * ry;
    let p2 = px * px + py * py;
    let c = cross_z(r, p);
    let d = dot2(r, p);
    let w2 = w.x * w.x + w.y * w.y;
    assert(w.x == SCALE * rx + BOUNCE_RANDOMNESS * px && w.y == SCALE * ry + BOUNCE_RANDOMNESS
        * py && w.z == 0);
    assert(cross_z(r, w) == BOUNCE_RANDOMNESS * c) by (nonlinear_arith)
        requires
            w.x == SCALE * rx + BOUNCE_RANDOMNESS * px,
            w.y == SCALE * ry + BOUNCE_RANDOMNESS * py,
            cross_z(r, w) == rx * w.y - ry * w.x,
            c == rx * py - ry * px,
    ;
    assert(w2 == SCALE * SCALE * r2 + 2 * SCALE * BOUNCE_RANDOMNESS * d + BOUNCE_RANDOMNESS
        * BOUNCE_RANDOMNESS * p2) by (nonlinear_arith)
        requires
            w.x == SCALE * rx + BOUNCE_RANDOMNESS * px,
            w.y == SCALE * ry + BOUNCE_RANDOMNESS * py,
            w2 == w.x * w.x + w.y * w.y,
            r2 == rx * rx + ry * ry,
            p2 == px * px + py * py,
            d == rx * px + ry * py,
            SCALE == 1000,
            BOUNCE_RANDOMNESS == 50,
    ;
    lemma_lagrange(r, p);
    assert(c * c == r2 * p2 - d * d);
    // the deviation bound is a perfect square:
    // p2·w2 − S²·c² == (S·d + BR·p2)²
    assert(p2 * w2 - SCALE * SCALE * (c * c) == (SCALE * d + BOUNCE_RANDOMNESS * p2) * (SCALE * d
        + BOUNCE_RANDOMNESS * p2)) by (nonlinear_arith)
        requires
            w2 == SCALE * SCALE * r2 + 2 * SCALE * BOUNCE_RANDOMNESS * d + BOUNCE_RANDOMNESS
                * BOUNCE_RANDOMNESS * p2,
            c * c == r2 * p2 - d * d,
            SCALE == 1000,
            BOUNCE_RANDOMNESS == 50,
    ;
    assert((SCALE * d + BOUNCE_RANDOMNESS * p2) * (SCALE * d + BOUNCE_RANDOMNESS * p2) >= 0)
        by (nonlinear_arith);
    assert(SCALE * SCALE * (c * c) <= p2 * w2);
    assert(SCALE * SCALE * (cross_z(r, w) * cross_z(r, w)) == BOUNCE_RANDOMNESS
        * BOUNCE_RANDOMNESS * (SCALE * SCALE * (c * c))) by (nonlinear_arith)
        requires
            cross_z(r, w) == BOUNCE_RANDOMNESS * c,
            SCALE == 1000,
            BOUNCE_RANDOMNESS == 50,
    ;
    assert(p.norm_sq() == p2 && w.norm_sq() == w2) by (nonlinear_arith)
        requires
            p.z == 0,
            w.z == 0,
            p.norm_sq() == px * px + py * py + p.z * p.z,
            w.norm_sq() == w.x * w.x + w.y * w.y + w.z * w.z,
            p2 == px * px + py * py,
            w2 == w.x * w.x + w.y * w.y,
    ;
    assert(BOUNCE_RANDOMNESS * BOUNCE_RANDOMNESS * (SCALE * SCALE * (c * c)) <= BOUNCE_RANDOMNESS
        * BOUNCE_RANDOMNESS * (p2 * w2)) by (nonlinear_arith)
        requires
            SCALE * SCALE * (c * c) <= p2 * w2,
            BOUNCE_RANDOMNESS == 50,
    ;
}

/// The perturbation bound carried through renormalization: renormalizing
/// the blended direction `w` into the stored direction `d` rounds each
/// component toward zero by less than one step, which moves the cross
/// term against the mirror direction `r` by less than `2004 * n`, where
/// `n ≈ |w|` is the norm used to rescale. Divided by `n * |r| * |d|`
/// (about `n * SCALE * SCALE`), that is a rotation of about two
/// milliradians on top of the arcsin(0.05) of `lemma_bounded_perturbation`.
pub proof fn lemma_bounce_rounding(r: Vec3Fx, p: Vec3Fx)
    requires
        r.is_unit(),
        p.is_unit(),
    ensures
        ({
            let w = blend_spec(r, p);
            let d = normalize_spec(w);
            let n = isqrt_spec(w.norm_sq() as nat) as int;
            &&& 500 <= n
            &&& SCALE * cross_z(r, w) - 2004 * n <= n * cross_z(r, d) <= SCALE * cross_z(r, w)
                + 2004 * n
        }),
{
    lemma_unit_component_bounds(r);
    lemma_unit_component_bounds(p);
    lemma_blend_norm(r, p);
    let w = blend_spec(r, p);
    let w2 = w.norm_sq();
    lemma_isqrt_spec_bounds(w2 as nat);
    let n = isqrt_spec(w2 as nat) as int;
    assert(n >= 500) by (nonlinear_arith)
        requires
            w2 < (n + 1) * (n + 1),
            w2 >= 250_000,
            n >= 0,
    ;
    lemma_scaled_div_close(w.x as int, n);
    lemma_scaled_div_close(w.y as int, n);
    let qx = scaled_div(w.x as int, n);
    let qy = scaled_div(w.y as int, n);
    let d = normalize_spec(w);
    assert(d.x == qx && d.y == qy);
    let ex = n * qx - w.x * SCALE;
    let ey = n * qy - w.y * SCALE;
    assert(n * cross_z(r, d) == SCALE * cross_z(r, w) + (r.x * ey - r.y * ex))
        by (nonlinear_arith)
        requires
            cross_z(r, d) == r.x * d.y - r.y * d.x,
            cross_z(r, w) == r.x * w.y - r.y * w.x,
            d.x == qx,
            d.y == qy,
            ex == n * qx - w.x * SCALE,
            ey == n * qy - w.y * SCALE,
    ;
    assert(-2004 * n <= r.x * ey - r.y * ex <= 2004 * n) by (nonlinear_arith)
        requires
            -1002 <= r.x <= 1002,
            -1002 <= r.y <= 1002,
            -n < ex < n,
            -n < ey < n,
            n >= 1,
    ;
}

/// The bounce reflector: mirror the crossed components; if anything
/// crossed, blend in the unit perturbation `p` with weight
/// `BOUNCE_RANDOMNESS / SCALE` and renormalize; otherwise the direction is
/// unchanged.
pub open spec fn bounce_spec(d: Vec3Fx, hit_x: bool, hit_y: bool, p: Vec3Fx) -> Vec3Fx {
    if hit_x || hit_y {
        normalize_spec(blend_spec(reflect_spec(d, hit_x, hit_y), p))
    } else {
        d
    }
}

pub fn bounce_direction(d: Vec3Fx, hit_x: bool, hit_y: bool, p: Vec3Fx) -> (nd: Vec3Fx)
    requires
        d.is_unit(),
        p.is_unit(),
    ensures
        nd == bounce_spec(d, hit_x, hit_y, p),
        nd.is_unit(),
{
    if hit_x || hit_y {
        let r = reflect(d, hit_x, hit_y);
        let w = blend(r, p);
        normalize(w)
    } else {
        d
    }
}

/// Clamp the player into the arena; the player consumes no crossing flags.
pub fn confine_player(player: &mut Player, a: Arena)
    requires
        a.wf(),
        old(player).position.z == 0,
    ensures
        final(player).position == confine_spec(old(player).position, PLAYER_RADIUS as int,
            a).position,
        in_bounds(final(player).position, PLAYER_RADIUS as int, a),
{
    let c = confine(player.position, PLAYER_RADIUS, a);
    player.position = c.position;
}

/// Clamp the enemy into the arena; on any crossing, bounce its direction
/// off the crossed wall(s) using the unit perturbation drawn for this
/// frame. Returns whether a bounce occurred (the caller emits the audio
/// event).
pub fn confine_enemy(enemy: &mut Enemy, a: Arena, perturbation: Vec3Fx) -> (bounced: bool)
    requires
        a.wf(),
        old(enemy).position.z == 0,
        old(enemy).direction.is_unit(),
        perturbation.is_unit(),
    ensures
        ({
            let c = confine_spec(old(enemy).position, ENEMY_RADIUS as int, a);
            &&& final(enemy).position == c.position
            &&& bounced == (c.x_hit != AxisHit::Inside || c.y_hit != AxisHit::Inside)
            &&& final(enemy).direction == bounce_spec(
                old(enemy).direction,
                c.x_hit != AxisHit::Inside,
                c.y_hit != AxisHit::Inside,
                perturbation,
            )
        }),
        in_bounds(final(enemy).position, ENEMY_RADIUS as int, a),
        final(enemy).direction.is_unit(),
        !bounced ==> final(enemy).direction == old(enemy).direction,
{
    let c = confine(enemy.position, ENEMY_RADIUS, a);
    enemy.position = c.position;
    let hit_x = c.x_hit != AxisHit::Inside;
    let hit_y = c.y_hit != AxisHit::Inside;
    let bounced = hit_x || hit_y;
    if bounced {
        enemy.direction = bounce_direction(enemy.direction, hit_x, hit_y, perturbation);
    }
    bounced
}

} // verus!
