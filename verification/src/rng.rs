//! Randomness at the edge of the core.
//!
//! A single trusted declaration covers the outside generator; everything
//! computed from the drawn bits — range reduction, direction construction,
//! normalization — is verified. Nothing is stated about the distribution of
//! a draw: every contract here holds of every outcome.

use vstd::prelude::*;

verus! {

use crate::SCALE;
use crate::MIN_NORM_SQ;
use crate::vecfx::Vec3Fx;
use crate::vecfx::vec3fx;
use crate::vecfx::normalize;

/// Relies on rand::random: one independent draw from the thread-local
/// generator. Nothing can be promised of the value, so there is no
/// `ensures`.
pub assume_specification<T>[ rand::random::<T> ]() -> (r: T)
    where
        rand::distributions::Standard: rand::distributions::Distribution<T>,
;

/// A draw reduced into `[lo, hi)`. The reduction of the raw 64-bit draw is
/// verified; the distribution is not part of the contract.
pub fn random_in_range(lo: i64, hi: i64) -> (r: i64)
    requires
        lo < hi,
        hi - lo <= 0x7fff_ffff_ffff_ffff,
    ensures
        lo <= r < hi,
{
    let span: u64 = (hi - lo) as u64;
    let draw: u64 = rand::random();
    let off: u64 = draw % span;
    lo + (off as i64)
}

/// A unit direction in the plane: a point is drawn uniformly from a square
/// around the origin, kept only if it lands in the ring between half a
/// unit and one unit — so that the angular distribution is uniform up to
/// lattice granularity — and rescaled to unit length. After sixteen
/// rejections the unit x direction is the fallback. Every output is planar
/// and unit length within the fixed-point tolerance.
pub fn random_direction() -> (r: Vec3Fx)
    ensures
        r.is_unit(),
{
    let mut attempts: u64 = 0;
    while attempts < 16
        invariant
            true,
        decreases 16 - attempts,
    {
        let x: i64 = random_in_range(-SCALE, SCALE + 1);
        let y: i64 = random_in_range(-SCALE, SCALE + 1);
        proof {
            assert(0 <= x * x <= 1_000_000 && 0 <= y * y <= 1_000_000) by (nonlinear_arith)
                requires
                    -1000 <= x <= 1000,
                    -1000 <= y <= 1000,
            ;
        }
        let m: i64 = x * x + y * y;
        if m >= MIN_NORM_SQ && m <= SCALE * SCALE {
            let v = vec3fx(x, y);
            proof {
                assert(v.norm_sq() == x * x + y * y) by (nonlinear_arith)
                    requires
                        v.x == x,
                        v.y == y,
                        v.z == 0,
            ;
            }
            return normalize(v);
        }
        attempts = attempts + 1;
    }
    let fallback = vec3fx(SCALE, 0);
    proof {
        assert(fallback.norm_sq() == SCALE * SCALE) by (nonlinear_arith)
            requires
                fallback.x == SCALE,
                fallback.y == 0,
                fallback.z == 0,
        ;
    }
    fallback
}

} // verus!
