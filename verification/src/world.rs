//! The tick orchestrator: spawn the world, then each frame integrate,
//! confine, and bounce every entity in a fixed order.

use vstd::prelude::*;

verus! {

use crate::DT_LIMIT;
use crate::PLAYER_SPEED;
use crate::PLAYER_RADIUS;
use crate::ENEMY_SPEED;
use crate::ENEMY_RADIUS;
use crate::NUMBER_OF_ENEMIES;
use crate::vecfx::Vec3Fx;
use crate::entities::Arena;
use crate::entities::Player;
use crate::entities::Enemy;
use crate::entities::KeyState;
use crate::entities::in_bounds;
use crate::motion::integrate_spec;
use crate::motion::input_direction_spec;
use crate::motion::move_player;
use crate::motion::move_enemy;
use crate::bounce::AxisHit;
use crate::bounce::bounce_spec;
use crate::bounce::confine_spec;
use crate::bounce::confine_player;
use crate::bounce::confine_enemy;
use crate::bounce::lemma_confine_idempotent;
use crate::rng::random_in_range;
use crate::rng::random_direction;

/// An enemy whose position lies in the arena rectangle (possibly not yet
/// clamped by its radius — the first confinement performs that) and whose
/// stored direction is unit length.
pub open spec fn enemy_wf(e: Enemy, a: Arena) -> bool {
    &&& 0 <= e.position.x <= a.width
    &&& 0 <= e.position.y <= a.height
    &&& e.position.z == 0
    &&& e.direction.is_unit()
}

/// The whole simulation state: the one player and the fixed set of
/// enemies, owned directly; the orchestrator iterates the collection.
#[derive(Clone, Debug)]
pub struct Simulation {
    pub player: Player,
    pub enemies: Vec<Enemy>,
}

impl Simulation {
    /// Positions lie in the arena rectangle and every enemy direction is
    /// unit length. Holds from spawn on; every tick preserves it.
    pub open spec fn wf(self, a: Arena) -> bool {
        &&& 0 <= self.player.position.x <= a.width
        &&& 0 <= self.player.position.y <= a.height
        &&& self.player.position.z == 0
        &&& forall|i: int|
            0 <= i < self.enemies.len() ==> enemy_wf(#[trigger] self.enemies[i], a)
    }

    /// Every entity is confined: inside the arena with its radius as
    /// margin. Holds after every tick.
    pub open spec fn confined(self, a: Arena) -> bool {
        &&& in_bounds(self.player.position, PLAYER_RADIUS as int, a)
        &&& forall|i: int|
            0 <= i < self.enemies.len() ==> in_bounds(
                (#[trigger] self.enemies[i]).position,
                ENEMY_RADIUS as int,
                a,
            )
    }
}

/// Place the player at the arena center.
pub fn spawn_player(a: Arena) -> (p: Player)
    requires
        a.wf(),
    ensures
        p.position.x == a.width / 2,
        p.position.y == a.height / 2,
        p.position.z == 0,
        in_bounds(p.position, PLAYER_RADIUS as int, a),
{
    Player { position: Vec3Fx { x: a.width / 2, y: a.height / 2, z: 0 } }
}

/// Spawn the fixed number of enemies, each at an independently drawn
/// position in `[0, width) × [0, height)` — not yet clamped by the radius;
/// the first confinement tick performs the clamp — with an independently
/// drawn unit direction.
pub fn spawn_enemies(a: Arena) -> (v: Vec<Enemy>)
    requires
        a.wf(),
    ensures
        v.len() == NUMBER_OF_ENEMIES,
        forall|i: int| 0 <= i < v.len() ==> enemy_wf(#[trigger] v[i], a),
        forall|i: int|
            0 <= i < v.len() ==> (#[trigger] v[i]).position.x < a.width && v[i].position.y
                < a.height,
{
    let mut v: Vec<Enemy> = Vec::new();
    let mut i: usize = 0;
    while i < NUMBER_OF_ENEMIES
        invariant
            a.wf(),
            i <= NUMBER_OF_ENEMIES,
            v.len() == i,
            forall|j: int| 0 <= j < v.len() ==> enemy_wf(#[trigger] v[j], a),
            forall|j: int|
                0 <= j < v.len() ==> (#[trigger] v[j]).position.x < a.width && v[j].position.y
                    < a.height,
        decreases NUMBER_OF_ENEMIES - i,
    {
        let x = random_in_range(0, a.width);
        let y = random_in_range(0, a.height);
        let direction = random_direction();
        v.push(Enemy { position: Vec3Fx { x, y, z: 0 }, direction });
        i = i + 1;
    }
    v
}

/// Spawn the player and the enemies into a fresh, well-formed world.
pub fn spawn_world(a: Arena) -> (s: Simulation)
    requires
        a.wf(),
    ensures
        s.wf(a),
        s.enemies.len() == NUMBER_OF_ENEMIES,
        in_bounds(s.player.position, PLAYER_RADIUS as int, a),
{
    Simulation { player: spawn_player(a), enemies: spawn_enemies(a) }
}

/// What one tick does to one enemy: integrate along the stored direction,
/// confine, and — exactly when an axis crossed — bounce off the crossed
/// wall(s) with some unit perturbation.
pub open spec fn enemy_step(before: Enemy, after: Enemy, a: Arena, dt: int) -> bool {
    let moved = integrate_spec(before.position, before.direction, ENEMY_SPEED as int, dt);
    let c = confine_spec(moved, ENEMY_RADIUS as int, a);
    let hit = c.x_hit != AxisHit::Inside || c.y_hit != AxisHit::Inside;
    &&& after.position == c.position
    &&& after.direction.is_unit()
    &&& (!hit ==> after.direction == before.direction)
    &&& (hit ==> exists|p: Vec3Fx|
        #[trigger] p.is_unit() && after.direction == bounce_spec(
            before.direction,
            c.x_hit != AxisHit::Inside,
            c.y_hit != AxisHit::Inside,
            p,
        ))
}

/// `enemy_step`, together with the reported bounce flag: the flag is set
/// exactly when an axis crossed.
pub open spec fn tick_enemy_post(before: Enemy, after: Enemy, bounced: bool, a: Arena, dt: int) -> bool {
    let moved = integrate_spec(before.position, before.direction, ENEMY_SPEED as int, dt);
    let c = confine_spec(moved, ENEMY_RADIUS as int, a);
    &&& enemy_step(before, after, a, dt)
    &&& bounced == (c.x_hit != AxisHit::Inside || c.y_hit != AxisHit::Inside)
}

/// The whole tick relation: what one tick does to the whole state — the
/// player integrated from the held keys and clamped, every enemy stepped
/// by `enemy_step`, and the result well-formed and confined.
pub open spec fn tick_rel(before: Simulation, after: Simulation, a: Arena, keys: KeyState, dt: int) -> bool {
    &&& after.player.position == confine_spec(
        integrate_spec(before.player.position, input_direction_spec(keys), PLAYER_SPEED as int, dt),
        PLAYER_RADIUS as int,
        a,
    ).position
    &&& after.enemies.len() == before.enemies.len()
    &&& forall|i: int|
        0 <= i < before.enemies.len() ==> enemy_step(
            before.enemies[i],
            #[trigger] after.enemies[i],
            a,
            dt,
        )
    &&& after.wf(a)
    &&& after.confined(a)
}

/// One simulation tick: recompute and integrate the player from the held
/// keys, confine it (clamp only); then, for every enemy, integrate along
/// its stored direction, confine, and bounce on any crossing. Returns one
/// bounce flag per enemy, in spawn order, for the audio collaborator.
///
/// With no keys held the player's position is unchanged; every entity ends
/// the tick confined.
pub fn tick(sim: &mut Simulation, a: Arena, keys: KeyState, dt: i64) -> (bounces: Vec<bool>)
    requires
        a.wf(),
        old(sim).wf(a),
        0 <= dt <= DT_LIMIT,
    ensures
        final(sim).wf(a),
        final(sim).confined(a),
        final(sim).enemies.len() == old(sim).enemies.len(),
        bounces.len() == old(sim).enemies.len(),
        final(sim).player.position == confine_spec(
            integrate_spec(
                old(sim).player.position,
                input_direction_spec(keys),
                PLAYER_SPEED as int,
                dt as int,
            ),
            PLAYER_RADIUS as int,
            a,
        ).position,
        !keys.any() && in_bounds(old(sim).player.position, PLAYER_RADIUS as int, a)
            ==> final(sim).player.position == old(sim).player.position,
        forall|i: int|
            0 <= i < old(sim).enemies.len() ==> tick_enemy_post(
                old(sim).enemies[i],
                #[trigger] final(sim).enemies[i],
                bounces[i],
                a,
                dt as int,
            ),
        tick_rel(*old(sim), *final(sim), a, keys, dt as int),
{
    let ghost orig: Simulation = *sim;
    move_player(&mut sim.player, keys, dt);
    confine_player(&mut sim.player, a);
    proof {
        if !keys.any() && in_bounds(orig.player.position, PLAYER_RADIUS as int, a) {
            lemma_confine_idempotent(orig.player.position, PLAYER_RADIUS as int, a);
        }
    }
    let player_done: Player = sim.player;
    let n = sim.enemies.len();
    let mut new_enemies: Vec<Enemy> = Vec::new();
    let mut bounces: Vec<bool> = Vec::new();
    let mut i: usize = 0;
    while i < n
        invariant
            a.wf(),
            0 <= dt <= DT_LIMIT,
            n == sim.enemies.len(),
            sim.enemies@ == orig.enemies@,
            sim.player == player_done,
            in_bounds(player_done.position, PLAYER_RADIUS as int, a),
            forall|j: int| 0 <= j < n ==> enemy_wf(#[trigger] orig.enemies[j], a),
            i <= n,
            new_enemies.len() == i,
            bounces.len() == i,
            forall|j: int|
                0 <= j < i ==> tick_enemy_post(
                    orig.enemies[j],
                    #[trigger] new_enemies[j],
                    bounces[j],
                    a,
                    dt as int,
                ),
            forall|j: int|
                0 <= j < i ==> in_bounds(
                    (#[trigger] new_enemies[j]).position,
                    ENEMY_RADIUS as int,
                    a,
                ),
        decreases n - i,
    {
        let mut e = sim.enemies[i];
        let perturbation = random_direction();
        move_enemy(&mut e, dt);
        let b = confine_enemy(&mut e, a, perturbation);
        proof {
            let before = orig.enemies[i as int];
            let moved = integrate_spec(
                before.position,
                before.direction,
                ENEMY_SPEED as int,
                dt as int,
            );
            let c = confine_spec(moved, ENEMY_RADIUS as int, a);
            if b {
                // the perturbation drawn this frame is the witness
                assert(perturbation.is_unit() && e.direction == bounce_spec(
                    before.direction,
                    c.x_hit != AxisHit::Inside,
                    c.y_hit != AxisHit::Inside,
                    perturbation,
                ));
            }
            assert(enemy_step(before, e, a, dt as int));
        }
        new_enemies.push(e);
        bounces.push(b);
        i = i + 1;
    }
    sim.enemies = new_enemies;
    bounces
}

/// One tick's worth of outside input: the key snapshot and the elapsed
/// time for that frame.
#[derive(Clone, Copy, Debug)]
pub struct TickInput {
    pub keys: KeyState,
    pub dt: i64,
}

/// Boundary containment over a whole run: any finite sequence of ticks,
/// with arbitrary bounded elapsed times, passes through a trace of states
/// whose every step is one full tick (`tick_rel`) — so after every tick,
/// in particular after the last, every entity's position is confined to
/// `[radius, bound - radius]` on both axes. The trace of states, one
/// before the first tick and one after each, is returned as a ghost
/// value.
pub fn run_ticks(sim: &mut Simulation, a: Arena, inputs: &Vec<TickInput>) -> (trace: Ghost<
    Seq<Simulation>,
>)
    requires
        a.wf(),
        old(sim).wf(a),
        forall|i: int| 0 <= i < inputs.len() ==> 0 <= (#[trigger] inputs[i]).dt <= DT_LIMIT,
    ensures
        final(sim).wf(a),
        final(sim).enemies.len() == old(sim).enemies.len(),
        inputs.len() > 0 ==> final(sim).confined(a),
        trace@.len() == inputs.len() + 1,
        trace@[0] == *old(sim),
        trace@[inputs.len() as int] == *final(sim),
        forall|k: int|
            0 <= k < inputs.len() ==> tick_rel(
                trace@[k],
                trace@[k + 1],
                a,
                (#[trigger] inputs[k]).keys,
                inputs[k].dt as int,
            ),
{
    let ghost sim0: Simulation = *sim;
    let ghost mut trace: Seq<Simulation> = seq![*sim];
    let mut k: usize = 0;
    while k < inputs.len()
        invariant
            a.wf(),
            sim.wf(a),
            k <= inputs.len(),
            sim.enemies.len() == sim0.enemies.len(),
            forall|i: int| 0 <= i < inputs.len() ==> 0 <= (#[trigger] inputs[i]).dt <= DT_LIMIT,
            k > 0 ==> sim.confined(a),
            trace.len() == k + 1,
            trace[0] == sim0,
            trace[k as int] == *sim,
            forall|j: int|
                0 <= j < k ==> tick_rel(
                    trace[j],
                    trace[j + 1],
                    a,
                    (#[trigger] inputs[j]).keys,
                    inputs[j].dt as int,
                ),
        decreases inputs.len() - k,
    {
        let inp = inputs[k];
        let _bounces = tick(sim, a, inp.keys, inp.dt);
        proof {
            trace = trace.push(*sim);
        }
        k = k + 1;
    }
    Ghost(trace)
}

} // verus!
