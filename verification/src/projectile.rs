//! Projectiles: what the player fires.

use vstd::prelude::*;
use crate::collision::Collidable;
use crate::locomotion::{advance, advanced};
use crate::plane::KinematicState;

verus! {

/// What makes an entity a projectile: a speed along its forward vector, in
/// world units per second, and a collision radius.
#[derive(Clone, Copy, Debug, PartialEq, Eq, Structural)]
pub struct Projectile {
    pub movement_speed: i64,
    pub collision_radius: i64,
}

impl Projectile {
    /// What the collision scan reads of a projectile in `state`.
    pub open spec fn body(self, state: KinematicState) -> Collidable {
        Collidable { position: state.position, collision_radius: self.collision_radius }
    }
}

/// A projectile after one tick: it has flown on, and is otherwise as it was.
pub open spec fn flown(projectile: (Projectile, KinematicState), dt: int) -> (Projectile, KinematicState) {
    (projectile.0, advanced(projectile.1, projectile.0.movement_speed as int, dt))
}

/// Moves every projectile forward by one tick of `dt` seconds.
pub fn projectile_movement_system(projectiles: &mut Vec<(Projectile, KinematicState)>, dt: i64)
    ensures
        final(projectiles)@ == old(projectiles)@.map_values(|p: (Projectile, KinematicState)| flown(p, dt as int)),
{
    let mut i: usize = 0;
    while i < projectiles.len()
        invariant
            i <= projectiles.len(),
            projectiles.len() == old(projectiles).len(),
            forall|k: int| 0 <= k < i ==> projectiles@[k] == flown(#[trigger] old(projectiles)@[k], dt as int),
            forall|k: int| i <= k < projectiles.len() ==> projectiles@[k] == #[trigger] old(projectiles)@[k],
        decreases projectiles.len() - i,
    {
        let (projectile, state) = projectiles[i];
        let next = advance(&state, projectile.movement_speed, dt);
        projectiles.set(i, (projectile, next));
        i += 1;
    }
    assert(projectiles@ =~= old(projectiles)@.map_values(|p: (Projectile, KinematicState)| flown(p, dt as int)));
}

} // verus!
