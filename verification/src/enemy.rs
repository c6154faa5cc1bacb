//! Enemies: what they are made of, and the systems that steer them, move
//! them and match them against projectiles, each over a snapshot of all the
//! entities that it concerns.

use vstd::prelude::*;
use crate::collision::{collision_scan, is_scan, Collidable, Contact};
use crate::fixed::HALF_TURN;
use crate::locomotion::{advance, advanced};
use crate::plane::{KinematicState, Position};
use crate::projectile::Projectile;
use crate::steering::{instant_snap, pursuit_step, rate_limited_pursuit, snapped_forward, Bearing};

verus! {

/// Marks an enemy that faces the player at once, every tick.
#[derive(Clone, Copy, Debug, PartialEq, Eq, Structural)]
pub struct SnapToPlayer;

/// The speed of an enemy along its forward vector, in world units per
/// second.
#[derive(Clone, Copy, Debug, PartialEq, Eq, Structural)]
pub struct EnemyMovementSpeed(pub i64);

/// The most an enemy turns toward the player, in radians per second.
#[derive(Clone, Copy, Debug, PartialEq, Eq, Structural)]
pub struct EnemyRotationSpeed(pub i64);

/// What makes an entity an enemy: a collision radius.
#[derive(Clone, Copy, Debug, PartialEq, Eq, Structural)]
pub struct Enemy {
    pub collision_radius: i64,
}

/// What a new enemy is made of.
#[derive(Clone, Copy, Debug, PartialEq, Eq, Structural)]
pub enum EnemyBundle {
    /// An enemy that turns toward the player at a limited rate.
    Pursuer { movement_speed: EnemyMovementSpeed, rotation_speed: EnemyRotationSpeed, enemy: Enemy },
    /// An enemy that faces the player at once.
    Snapper { movement_speed: EnemyMovementSpeed, snap_to_player: SnapToPlayer, enemy: Enemy },
}

impl Enemy {
    /// What the collision scan reads of an enemy in `state`.
    pub open spec fn body(self, state: KinematicState) -> Collidable {
        Collidable { position: state.position, collision_radius: self.collision_radius }
    }
}

/// What the collision scan reads of each projectile, in the order of the
/// snapshot.
pub open spec fn projectile_bodies(projectiles: Seq<(Projectile, KinematicState)>) -> Seq<Collidable> {
    projectiles.map_values(|p: (Projectile, KinematicState)| p.0.body(p.1))
}

/// What the collision scan reads of each enemy, in the order of the
/// snapshot.
pub open spec fn enemy_bodies(enemies: Seq<(Enemy, KinematicState)>) -> Seq<Collidable> {
    enemies.map_values(|e: (Enemy, KinematicState)| e.0.body(e.1))
}

/// A snapping enemy after one tick.
pub open spec fn snapped(enemy: KinematicState, player: Position) -> KinematicState {
    KinematicState { position: enemy.position, forward: snapped_forward(enemy, player) }
}

/// The signed angle by which a pursuing enemy turns in one tick.
pub open spec fn pursuit_turn(
    enemy: (EnemyRotationSpeed, KinematicState, Bearing),
    player: Position,
    dt: int,
) -> i64 {
    pursuit_step(enemy.1, player, enemy.2, enemy.0.0 as int, dt) as i64
}

/// An enemy after one tick of locomotion.
pub open spec fn moved_forward(
    enemy: (EnemyMovementSpeed, KinematicState),
    dt: int,
) -> (EnemyMovementSpeed, KinematicState) {
    (enemy.0, advanced(enemy.1, enemy.0.0 as int, dt))
}

/// The pursuer of a wave: two hundred world units per second fast, turning
/// by half a turn per second, with a radius of thirty-two world units.
pub open spec fn wave_pursuer() -> EnemyBundle {
    EnemyBundle::Pursuer {
        movement_speed: EnemyMovementSpeed(1_677_721_600),
        rotation_speed: EnemyRotationSpeed(HALF_TURN),
        enemy: Enemy { collision_radius: 268_435_456 },
    }
}

/// The snapper of a wave: as fast and as large as the pursuer.
pub open spec fn wave_snapper() -> EnemyBundle {
    EnemyBundle::Snapper {
        movement_speed: EnemyMovementSpeed(1_677_721_600),
        snap_to_player: SnapToPlayer,
        enemy: Enemy { collision_radius: 268_435_456 },
    }
}

/// The enemies that arrive in a tick that falls `seconds` whole seconds
/// after startup: one pursuer and one snapper while that count is even,
/// none while it is odd.
pub open spec fn wave(seconds: u64) -> Seq<EnemyBundle> {
    if seconds % 2 == 0 {
        seq![wave_pursuer(), wave_snapper()]
    } else {
        Seq::empty()
    }
}

/// Matches every projectile against every enemy. Each contact names, by
/// their places in the two snapshots, a projectile and an enemy that the
/// host is to remove.
pub fn collision_system(
    projectiles: &Vec<(Projectile, KinematicState)>,
    enemies: &Vec<(Enemy, KinematicState)>,
) -> (contacts: Vec<Contact>)
    ensures
        is_scan(projectile_bodies(projectiles@), enemy_bodies(enemies@), contacts@),
{
    let mut shots: Vec<Collidable> = Vec::new();
    let mut i: usize = 0;
    while i < projectiles.len()
        invariant
            i <= projectiles.len(),
            shots@ == projectile_bodies(projectiles@.take(i as int)),
        decreases projectiles.len() - i,
    {
        let (projectile, state) = projectiles[i];
        shots.push(Collidable { position: state.position, collision_radius: projectile.collision_radius });
        i += 1;
        assert(shots@ =~= projectile_bodies(projectiles@.take(i as int)));
    }
    assert(projectiles@.take(i as int) =~= projectiles@);
    let mut targets: Vec<Collidable> = Vec::new();
    let mut j: usize = 0;
    while j < enemies.len()
        invariant
            j <= enemies.len(),
            targets@ == enemy_bodies(enemies@.take(j as int)),
        decreases enemies.len() - j,
    {
        let (enemy, state) = enemies[j];
        targets.push(Collidable { position: state.position, collision_radius: enemy.collision_radius });
        j += 1;
        assert(targets@ =~= enemy_bodies(enemies@.take(j as int)));
    }
    assert(enemies@.take(j as int) =~= enemies@);
    collision_scan(&shots, &targets)
}

/// Turns every snapping enemy to face the player, who stands at `player`.
/// No enemy moves.
pub fn snap_to_player_system(enemies: &mut Vec<KinematicState>, player: Position)
    ensures
        final(enemies)@ == old(enemies)@.map_values(|e: KinematicState| snapped(e, player)),
{
    let mut i: usize = 0;
    while i < enemies.len()
        invariant
            i <= enemies.len(),
            enemies.len() == old(enemies).len(),
            forall|k: int| 0 <= k < i ==> enemies@[k] == snapped(#[trigger] old(enemies)@[k], player),
            forall|k: int| i <= k < enemies.len() ==> enemies@[k] == #[trigger] old(enemies)@[k],
        decreases enemies.len() - i,
    {
        let state = enemies[i];
        let next = instant_snap(&state, player);
        enemies.set(i, next);
        i += 1;
    }
    assert(enemies@ =~= old(enemies)@.map_values(|e: KinematicState| snapped(e, player)));
}

/// Decides, for every pursuing enemy, the signed angle by which the host is
/// to turn it in this tick of `dt` seconds: counter-clockwise when positive.
/// Each enemy comes with the measured bearing of the player, who stands at
/// `player`.
pub fn rotate_to_player_system(
    player: Position,
    enemies: &Vec<(EnemyRotationSpeed, KinematicState, Bearing)>,
    dt: i64,
) -> (turns: Vec<i64>)
    ensures
        turns@ == enemies@.map_values(
            |e: (EnemyRotationSpeed, KinematicState, Bearing)| pursuit_turn(e, player, dt as int),
        ),
{
    let mut turns: Vec<i64> = Vec::new();
    let mut i: usize = 0;
    while i < enemies.len()
        invariant
            i <= enemies.len(),
            turns.len() == i,
            forall|k: int| 0 <= k < i ==> turns@[k] == pursuit_turn(#[trigger] enemies@[k], player, dt as int),
        decreases enemies.len() - i,
    {
        let (rotation_speed, state, bearing) = enemies[i];
        turns.push(rate_limited_pursuit(&state, player, bearing, rotation_speed.0, dt));
        i += 1;
    }
    assert(turns@ =~= enemies@.map_values(
        |e: (EnemyRotationSpeed, KinematicState, Bearing)| pursuit_turn(e, player, dt as int),
    ));
    turns
}

/// Moves every enemy forward by one tick of `dt` seconds.
pub fn move_forward_system(enemies: &mut Vec<(EnemyMovementSpeed, KinematicState)>, dt: i64)
    ensures
        final(enemies)@ == old(enemies)@.map_values(
            |e: (EnemyMovementSpeed, KinematicState)| moved_forward(e, dt as int),
        ),
{
    let mut i: usize = 0;
    while i < enemies.len()
        invariant
            i <= enemies.len(),
            enemies.len() == old(enemies).len(),
            forall|k: int| 0 <= k < i ==> enemies@[k] == moved_forward(#[trigger] old(enemies)@[k], dt as int),
            forall|k: int| i <= k < enemies.len() ==> enemies@[k] == #[trigger] old(enemies)@[k],
        decreases enemies.len() - i,
    {
        let (movement_speed, state) = enemies[i];
        let next = advance(&state, movement_speed.0, dt);
        enemies.set(i, (movement_speed, next));
        i += 1;
    }
    assert(enemies@ =~= old(enemies)@.map_values(
        |e: (EnemyMovementSpeed, KinematicState)| moved_forward(e, dt as int),
    ));
}

/// Decides which enemies the host is to spawn in this tick, `seconds` whole
/// seconds after startup.
pub fn spawn_enemies_system(seconds: u64) -> (spawned: Vec<EnemyBundle>)
    ensures
        spawned@ == wave(seconds),
{
    let mut spawned: Vec<EnemyBundle> = Vec::new();
    if seconds % 2 != 0 {
        return spawned;
    }
    spawned.push(
        EnemyBundle::Pursuer {
            movement_speed: EnemyMovementSpeed(1_677_721_600),
            rotation_speed: EnemyRotationSpeed(HALF_TURN),
            enemy: Enemy { collision_radius: 268_435_456 },
        },
    );
    spawned.push(
        EnemyBundle::Snapper {
            movement_speed: EnemyMovementSpeed(1_677_721_600),
            snap_to_player: SnapToPlayer,
            enemy: Enemy { collision_radius: 268_435_456 },
        },
    );
    assert(spawned@ =~= wave(seconds));
    spawned
}

} // verus!
