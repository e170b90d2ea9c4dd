//! The motion integrator: advance a position by direction × speed ×
//! elapsed time, and derive the player's direction from the held keys.

use vstd::prelude::*;

verus! {

use crate::SCALE;
use crate::DT_LIMIT;
use crate::COORD_LIMIT;
use crate::PLAYER_SPEED;
use crate::ENEMY_SPEED;
use crate::vecfx::Vec3Fx;
use crate::vecfx::vec3fx;
use crate::vecfx::normalize;
use crate::vecfx::normalize_spec;
use crate::vecfx::lemma_unit_component_bounds;
use crate::entities::Player;
use crate::entities::Enemy;
use crate::entities::KeyState;

/// Quotient of `p / SCALE` rounded toward zero.
pub open spec fn div_scale(p: int) -> int {
    if p >= 0 {
        p / (SCALE as int)
    } else {
        -((-p) / (SCALE as int))
    }
}

/// One axis of the integrator: the displacement contributed by direction
/// component `c` (scaled), `speed` (units per second) and `dt` (scaled
/// seconds).
pub open spec fn delta_spec(c: int, speed: int, dt: int) -> int {
    div_scale(c * speed * dt)
}

/// `position + direction * speed * dt`, in scaled units.
pub open spec fn integrate_spec(pos: Vec3Fx, dir: Vec3Fx, speed: int, dt: int) -> Vec3Fx {
    Vec3Fx {
        x: (pos.x + delta_spec(dir.x as int, speed, dt)) as i64,
        y: (pos.y + delta_spec(dir.y as int, speed, dt)) as i64,
        z: pos.z,
    }
}

/// One axis of the integrator, executed sign-and-magnitude so that the
/// rounding matches `delta_spec` exactly.
fn scaled_delta(c: i64, speed: i64, dt: i64) -> (d: i64)
    requires
        -2000 <= c <= 2000,
        0 <= speed <= 1000,
        0 <= dt <= DT_LIMIT,
    ensures
        d == delta_spec(c as int, speed as int, dt as int),
        -2_200_000_000 <= d <= 2_200_000_000,
{
    let cm: i64 = if c >= 0 { c } else { -c };
    proof {
        assert(0 <= cm * speed <= 2_000_000) by (nonlinear_arith)
            requires
                0 <= cm <= 2000,
                0 <= speed <= 1000,
        ;
        assert(0 <= cm * speed * dt <= 2_097_152_000_000) by (nonlinear_arith)
            requires
                0 <= cm <= 2000,
                0 <= speed <= 1000,
                0 <= dt <= DT_LIMIT,
                DT_LIMIT == 1_048_576,
        ;
    }
    let prod: i64 = cm * speed * dt;
    let q: i64 = prod / SCALE;
    let d: i64 = if c >= 0 { q } else { -q };
    proof {
        let p = c as int * speed * dt;
        assert(cm as int * speed * dt == if c >= 0 { p } else { -p }) by (nonlinear_arith)
            requires
                cm == if c >= 0 { c as int } else { -(c as int) },
                p == c as int * speed * dt,
        ;
        if c < 0 {
            if p >= 0 {
                // speed or dt is zero, so both quotients are zero
                assert(p <= 0) by (nonlinear_arith)
                    requires
                        p == c as int * speed * dt,
                        c < 0,
                        speed >= 0,
                        dt >= 0,
                ;
                assert(p == 0);
            }
        } else {
            assert(p >= 0) by (nonlinear_arith)
                requires
                    p == c as int * speed * dt,
                    c >= 0,
                    speed >= 0,
                    dt >= 0,
            ;
        }
    }
    d
}

/// Advance `pos` by `dir * speed * dt`. A zero direction leaves the
/// position unchanged, whatever `dt` is.
pub fn integrate(pos: Vec3Fx, dir: Vec3Fx, speed: i64, dt: i64) -> (r: Vec3Fx)
    requires
        -COORD_LIMIT <= pos.x <= COORD_LIMIT,
        -COORD_LIMIT <= pos.y <= COORD_LIMIT,
        pos.z == 0,
        -2000 <= dir.x <= 2000,
        -2000 <= dir.y <= 2000,
        dir.z == 0,
        0 <= speed <= 1000,
        0 <= dt <= DT_LIMIT,
    ensures
        r == integrate_spec(pos, dir, speed as int, dt as int),
        r.z == 0,
        dir.is_zero() ==> r == pos,
        -COORD_LIMIT - 2_200_000_000 <= r.x <= COORD_LIMIT + 2_200_000_000,
        -COORD_LIMIT - 2_200_000_000 <= r.y <= COORD_LIMIT + 2_200_000_000,
{
    let dx = scaled_delta(dir.x, speed, dt);
    let dy = scaled_delta(dir.y, speed, dt);
    let r = Vec3Fx { x: pos.x + dx, y: pos.y + dy, z: 0 };
    proof {
        if dir.is_zero() {
            assert(dir.x as int * speed * dt == 0) by (nonlinear_arith)
                requires
                    dir.x == 0,
            ;
            assert(dir.y as int * speed * dt == 0) by (nonlinear_arith)
                requires
                    dir.y == 0,
            ;
        }
    }
    r
}

/// The unnormalized accumulator of the four axis keys: each held key
/// contributes one unit (scaled) along its axis.
pub open spec fn input_accum(keys: KeyState) -> Vec3Fx {
    Vec3Fx {
        x: ((if keys.right {
            SCALE as int
        } else {
            0
        }) - (if keys.left {
            SCALE as int
        } else {
            0
        })) as i64,
        y: ((if keys.up {
            SCALE as int
        } else {
            0
        }) - (if keys.down {
            SCALE as int
        } else {
            0
        })) as i64,
        z: 0,
    }
}

/// The player's direction for this tick: the key accumulator, normalized,
/// or the zero vector when the accumulator cancels to zero.
pub open spec fn input_direction_spec(keys: KeyState) -> Vec3Fx {
    let a = input_accum(keys);
    if a.is_zero() {
        a
    } else {
        normalize_spec(a)
    }
}

/// Derive the player's direction from the held keys: normalized, or zero
/// when no keys (or only cancelling keys) are held.
pub fn player_input_direction(keys: KeyState) -> (d: Vec3Fx)
    ensures
        d == input_direction_spec(keys),
        d.is_zero() || d.is_unit(),
        !keys.any() ==> d.is_zero(),
{
    let ax: i64 = (if keys.right {
        SCALE
    } else {
        0
    }) - (if keys.left {
        SCALE
    } else {
        0
    });
    let ay: i64 = (if keys.up {
        SCALE
    } else {
        0
    }) - (if keys.down {
        SCALE
    } else {
        0
    });
    let a = Vec3Fx { x: ax, y: ay, z: 0 };
    if ax == 0 && ay == 0 {
        a
    } else {
        proof {
            assert(a.norm_sq() >= 1_000_000) by (nonlinear_arith)
                requires
                    a.x == ax,
                    a.y == ay,
                    a.z == 0,
                    ax == -1000 || ax == 0 || ax == 1000,
                    ay == -1000 || ay == 0 || ay == 1000,
                    !(ax == 0 && ay == 0),
            ;
        }
        normalize(a)
    }
}

/// Recompute the player's direction from the held keys and integrate its
/// position. With no keys held the position is unchanged, whatever `dt`
/// is.
pub fn move_player(player: &mut Player, keys: KeyState, dt: i64)
    requires
        -COORD_LIMIT <= old(player).position.x <= COORD_LIMIT,
        -COORD_LIMIT <= old(player).position.y <= COORD_LIMIT,
        old(player).position.z == 0,
        0 <= dt <= DT_LIMIT,
    ensures
        final(player).position == integrate_spec(
            old(player).position,
            input_direction_spec(keys),
            PLAYER_SPEED as int,
            dt as int,
        ),
        final(player).position.z == 0,
        !keys.any() ==> final(player).position == old(player).position,
        -COORD_LIMIT - 2_200_000_000 <= final(player).position.x <= COORD_LIMIT + 2_200_000_000,
        -COORD_LIMIT - 2_200_000_000 <= final(player).position.y <= COORD_LIMIT + 2_200_000_000,
{
    let d = player_input_direction(keys);
    proof {
        if d.is_unit() {
            lemma_unit_component_bounds(d);
        }
    }
    player.position = integrate(player.position, d, PLAYER_SPEED, dt);
}

/// Integrate an enemy's position along its stored direction; the direction
/// itself is untouched.
pub fn move_enemy(enemy: &mut Enemy, dt: i64)
    requires
        -COORD_LIMIT <= old(enemy).position.x <= COORD_LIMIT,
        -COORD_LIMIT <= old(enemy).position.y <= COORD_LIMIT,
        old(enemy).position.z == 0,
        old(enemy).direction.is_unit(),
        0 <= dt <= DT_LIMIT,
    ensures
        final(enemy).position == integrate_spec(
            old(enemy).position,
            old(enemy).direction,
            ENEMY_SPEED as int,
            dt as int,
        ),
        final(enemy).direction == old(enemy).direction,
        final(enemy).position.z == 0,
        -COORD_LIMIT - 2_200_000_000 <= final(enemy).position.x <= COORD_LIMIT + 2_200_000_000,
        -COORD_LIMIT - 2_200_000_000 <= final(enemy).position.y <= COORD_LIMIT + 2_200_000_000,
{
    proof {
        lemma_unit_component_bounds(enemy.direction);
    }
    enemy.position = integrate(enemy.position, enemy.direction, ENEMY_SPEED, dt);
}

} // verus!
