use bounce_sim::vecfx::{is_unit_exec, isqrt, normalize, vec3fx, Vec3Fx};
use bounce_sim::entities::{arena_wf, Arena, Enemy, KeyState, Player};
use bounce_sim::motion::{integrate, move_enemy, move_player, player_input_direction};
use bounce_sim::bounce::{
    blend, bounce_direction, confine, confine_enemy, confine_player, reflect, AxisHit,
};
use bounce_sim::rng::{random_direction, random_in_range};
use bounce_sim::world::{run_ticks, spawn_enemies, spawn_player, spawn_world, tick, TickInput};
use bounce_sim::{
    BOUNCE_RANDOMNESS, ENEMY_RADIUS, NUMBER_OF_ENEMIES, PLAYER_RADIUS, SCALE, UNIT_SLACK,
};

fn arena_800_600() -> Arena {
    Arena { width: 800 * SCALE, height: 600 * SCALE }
}

fn no_keys() -> KeyState {
    KeyState { left: false, right: false, up: false, down: false }
}

#[test]
fn isqrt_exact_values() {
    assert_eq!(isqrt(0), 0);
    assert_eq!(isqrt(1), 1);
    assert_eq!(isqrt(3), 1);
    assert_eq!(isqrt(4), 2);
    assert_eq!(isqrt(999_999), 999);
    assert_eq!(isqrt(1_000_000), 1000);
    assert_eq!(isqrt(2_000_000), 1414);
    assert_eq!(isqrt(16_000_000_000_000), 4_000_000);
}

#[test]
fn normalize_exact_values() {
    let v = normalize(vec3fx(3000, 4000));
    assert_eq!((v.x, v.y, v.z), (600, 800, 0));
    let v = normalize(vec3fx(-3000, 4000));
    assert_eq!((v.x, v.y, v.z), (-600, 800, 0));
    let v = normalize(vec3fx(0, -700));
    assert_eq!((v.x, v.y, v.z), (0, -1000, 0));
}

#[test]
fn is_unit_exec_boundaries() {
    assert!(is_unit_exec(&vec3fx(1000, 0)));
    assert!(is_unit_exec(&vec3fx(1002, 0)));
    assert!(!is_unit_exec(&vec3fx(1003, 0)));
    assert!(is_unit_exec(&vec3fx(-998, 0)));
    assert!(!is_unit_exec(&vec3fx(997, 0)));
    assert!(!is_unit_exec(&vec3fx(0, 0)));
    assert!(!is_unit_exec(&Vec3Fx { x: 1000, y: 0, z: 1 }));
}

#[test]
fn random_in_range_stays_in_range() {
    for _ in 0..1000 {
        let r = random_in_range(-5, 7);
        assert!(-5 <= r && r < 7);
    }
    // a one-element range pins the draw completely
    for _ in 0..10 {
        assert_eq!(random_in_range(41, 42), 41);
    }
}

// Unit-direction invariant: every draw is unit length within tolerance
// and exactly planar.
#[test]
fn random_direction_always_unit() {
    for _ in 0..1000 {
        let d = random_direction();
        assert!(is_unit_exec(&d));
        assert_eq!(d.z, 0);
        let m = d.x * d.x + d.y * d.y;
        assert!(SCALE * SCALE - UNIT_SLACK <= m && m <= SCALE * SCALE + UNIT_SLACK);
    }
}

#[test]
fn integrate_exact_displacement() {
    let pos = vec3fx(0, 0);
    let r = integrate(pos, vec3fx(1000, 0), 300, 1000);
    assert_eq!((r.x, r.y, r.z), (300 * SCALE, 0, 0));
    // truncation toward zero on a negative component
    let r = integrate(vec3fx(10, 10), vec3fx(-707, 707), 300, 100);
    assert_eq!((r.x, r.y), (10 - 21_210, 10 + 21_210));
}

// No-input zero motion: with no keys held the position is unchanged,
// whatever dt is.
#[test]
fn no_input_zero_motion() {
    for dt in [0, 1, 100, 65_536, 1_048_576] {
        let mut p = Player { position: vec3fx(123_456, 98_765) };
        move_player(&mut p, no_keys(), dt);
        assert_eq!((p.position.x, p.position.y), (123_456, 98_765));
    }
}

#[test]
fn input_direction_axes_and_diagonals() {
    let mut k = no_keys();
    k.right = true;
    let d = player_input_direction(k);
    assert_eq!((d.x, d.y), (1000, 0));
    k.up = true;
    let d = player_input_direction(k);
    assert_eq!((d.x, d.y), (707, 707));
    assert!(is_unit_exec(&d));
    // opposite keys cancel to the zero vector
    let k = KeyState { left: true, right: true, up: false, down: true };
    let d = player_input_direction(k);
    assert_eq!((d.x, d.y, d.z), (0, -1000, 0));
    let k = KeyState { left: true, right: true, up: true, down: true };
    let d = player_input_direction(k);
    assert_eq!((d.x, d.y, d.z), (0, 0, 0));
}

// Confinement idempotence: a second confinement moves nothing and flags
// nothing.
#[test]
fn confine_idempotent() {
    let a = arena_800_600();
    for p in [vec3fx(-20_000, 300_000), vec3fx(900_000, -5), vec3fx(400_000, 300_000)] {
        let once = confine(p, ENEMY_RADIUS, a);
        let twice = confine(once.position, ENEMY_RADIUS, a);
        assert_eq!(twice.position, once.position);
        assert_eq!(twice.x_hit, AxisHit::Inside);
        assert_eq!(twice.y_hit, AxisHit::Inside);
    }
    // already inside: unchanged, nothing flagged
    let inside = vec3fx(400_000, 300_000);
    let c = confine(inside, ENEMY_RADIUS, a);
    assert_eq!(c.position, inside);
    assert_eq!(c.x_hit, AxisHit::Inside);
    assert_eq!(c.y_hit, AxisHit::Inside);
}

#[test]
fn confine_flags_each_side() {
    let a = arena_800_600();
    let c = confine(vec3fx(10, 300_000), ENEMY_RADIUS, a);
    assert_eq!(c.x_hit, AxisHit::Low);
    assert_eq!(c.y_hit, AxisHit::Inside);
    assert_eq!(c.position.x, ENEMY_RADIUS);
    let c = confine(vec3fx(799_999, 600_001), ENEMY_RADIUS, a);
    assert_eq!(c.x_hit, AxisHit::High);
    assert_eq!(c.y_hit, AxisHit::High);
    assert_eq!((c.position.x, c.position.y), (a.width - ENEMY_RADIUS, a.height - ENEMY_RADIUS));
}

// Reflection sign law: an x-only crossing flips the x sign and keeps y.
#[test]
fn reflection_sign_law() {
    let d = vec3fx(-600, 800);
    let r = reflect(d, true, false);
    assert_eq!((r.x, r.y, r.z), (600, 800, 0));
    let r = reflect(d, false, true);
    assert_eq!((r.x, r.y, r.z), (-600, -800, 0));
    let r = reflect(d, true, true);
    assert_eq!((r.x, r.y, r.z), (600, -800, 0));
    let r = reflect(d, false, false);
    assert_eq!((r.x, r.y, r.z), (-600, 800, 0));
}

// Bounded perturbation: SCALE² · cross(r, w)² <= BOUNCE_RANDOMNESS² · |p|² · |w|²,
// so the blended ray deviates from the mirror ray by at most about
// arcsin(0.05).
#[test]
fn bounded_perturbation_numeric() {
    let r = vec3fx(-600, 800);
    for _ in 0..200 {
        let p = random_direction();
        let w = blend(r, p);
        let cross = (r.x as i128) * (w.y as i128) - (r.y as i128) * (w.x as i128);
        let p2 = (p.x as i128) * (p.x as i128) + (p.y as i128) * (p.y as i128);
        let w2 = (w.x as i128) * (w.x as i128) + (w.y as i128) * (w.y as i128);
        let s = SCALE as i128;
        let b = BOUNCE_RANDOMNESS as i128;
        assert!(s * s * cross * cross <= b * b * p2 * w2);
    }
}

#[test]
fn blend_exact_components() {
    let w = blend(vec3fx(1000, 0), vec3fx(0, 1000));
    assert_eq!((w.x, w.y, w.z), (1_000_000, 50_000, 0));
    let w = blend(vec3fx(-600, 800), vec3fx(-1000, 0));
    assert_eq!((w.x, w.y, w.z), (-650_000, 800_000, 0));
}

#[test]
fn bounce_deterministic_given_perturbation() {
    let d = vec3fx(-600, 800);
    let p = random_direction();
    let first = bounce_direction(d, true, false, p);
    let second = bounce_direction(d, true, false, p);
    assert_eq!(first, second);
}

#[test]
fn bounce_direction_unit_and_unchanged_without_hit() {
    let d = vec3fx(-600, 800);
    let p = random_direction();
    let nd = bounce_direction(d, false, false, p);
    assert_eq!(nd, d);
    let nd = bounce_direction(d, true, false, p);
    assert!(is_unit_exec(&nd));
    assert!(nd.x > 0);
}

// End-to-end scenario: arena 800×600, radius 32, enemy at (10, 300) moving
// along (-1, 0); dt = 0.1 at speed 300 integrates to (-20, 300), confines
// to exactly (32, 300) with an x-low crossing, and the bounce leaves a
// unit direction with positive x.
#[test]
fn end_to_end_left_wall_bounce() {
    let a = arena_800_600();
    let mut e = Enemy {
        position: vec3fx(10 * SCALE, 300 * SCALE),
        direction: vec3fx(-1000, 0),
    };
    move_enemy(&mut e, 100);
    assert_eq!((e.position.x, e.position.y), (-20 * SCALE, 300 * SCALE));
    let p = random_direction();
    let bounced = confine_enemy(&mut e, a, p);
    assert!(bounced);
    assert_eq!((e.position.x, e.position.y, e.position.z), (32 * SCALE, 300 * SCALE, 0));
    assert!(e.direction.x > 0);
    assert!(is_unit_exec(&e.direction));
}

#[test]
fn confine_player_clamps_only() {
    let a = arena_800_600();
    let mut p = Player { position: vec3fx(-5_000, 700_000) };
    confine_player(&mut p, a);
    assert_eq!((p.position.x, p.position.y), (PLAYER_RADIUS, a.height - PLAYER_RADIUS));
}

#[test]
fn spawn_player_at_center() {
    let a = arena_800_600();
    let p = spawn_player(a);
    assert_eq!((p.position.x, p.position.y, p.position.z), (400 * SCALE, 300 * SCALE, 0));
}

#[test]
fn spawn_enemies_in_rectangle_with_unit_directions() {
    let a = arena_800_600();
    let v = spawn_enemies(a);
    assert_eq!(v.len(), NUMBER_OF_ENEMIES);
    for e in &v {
        assert!(0 <= e.position.x && e.position.x < a.width);
        assert!(0 <= e.position.y && e.position.y < a.height);
        assert_eq!(e.position.z, 0);
        assert!(is_unit_exec(&e.direction));
    }
}

#[test]
fn arena_wf_checks_radius_margin() {
    assert!(arena_wf(&arena_800_600()));
    assert!(!arena_wf(&Arena { width: 63_000, height: 600_000 }));
    assert!(!arena_wf(&Arena { width: 800_000, height: 0 }));
}

#[test]
fn tick_reports_one_flag_per_enemy() {
    let a = arena_800_600();
    let mut sim = spawn_world(a);
    let bounces = tick(&mut sim, a, no_keys(), 16);
    assert_eq!(bounces.len(), sim.enemies.len());
    assert_eq!(sim.enemies.len(), NUMBER_OF_ENEMIES);
}

#[test]
fn tick_bounce_flag_matches_wall_hit() {
    let a = arena_800_600();
    let mut sim = spawn_world(a);
    sim.enemies[0].position = vec3fx(10 * SCALE, 300 * SCALE);
    sim.enemies[0].direction = vec3fx(-1000, 0);
    sim.enemies[1].position = vec3fx(400 * SCALE, 300 * SCALE);
    sim.enemies[1].direction = vec3fx(1000, 0);
    let dir1_before = sim.enemies[1].direction;
    let bounces = tick(&mut sim, a, no_keys(), 100);
    assert!(bounces[0]);
    assert!(!bounces[1]);
    assert_eq!(sim.enemies[0].position.x, 32 * SCALE);
    assert_eq!(sim.enemies[1].direction, dir1_before);
}

// Boundary containment: after any bounded sequence of ticks every entity
// lies within [radius, bound - radius] on both axes.
#[test]
fn containment_over_many_ticks() {
    let a = arena_800_600();
    let mut sim = spawn_world(a);
    let mut inputs: Vec<TickInput> = Vec::new();
    for i in 0..200u32 {
        let keys = KeyState {
            left: i % 3 == 0,
            right: i % 5 == 0,
            up: i % 2 == 0,
            down: i % 7 == 0,
        };
        let dt = ((i as i64) * 37) % 3000;
        inputs.push(TickInput { keys, dt });
    }
    run_ticks(&mut sim, a, &inputs);
    let px = sim.player.position.x;
    let py = sim.player.position.y;
    assert!(PLAYER_RADIUS <= px && px <= a.width - PLAYER_RADIUS);
    assert!(PLAYER_RADIUS <= py && py <= a.height - PLAYER_RADIUS);
    for e in &sim.enemies {
        assert!(ENEMY_RADIUS <= e.position.x && e.position.x <= a.width - ENEMY_RADIUS);
        assert!(ENEMY_RADIUS <= e.position.y && e.position.y <= a.height - ENEMY_RADIUS);
        assert!(is_unit_exec(&e.direction));
    }
}

#[test]
fn player_moves_right_under_input() {
    let a = arena_800_600();
    let mut sim = spawn_world(a);
    let mut keys = no_keys();
    keys.right = true;
    let x0 = sim.player.position.x;
    tick(&mut sim, a, keys, 1000);
    // 500 units/s for one second, clamped by the right wall if needed
    assert_eq!(sim.player.position.x, (x0 + 500 * SCALE).min(a.width - PLAYER_RADIUS));
}
