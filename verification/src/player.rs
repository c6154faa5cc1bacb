//! The player: the one entity that the enemies track, and what its controls
//! decide in a tick.

use vstd::prelude::*;
use crate::fixed::{saturate, saturated, scale_down, scaled_down, lemma_product_fits, ONE};
use crate::plane::KinematicState;
use crate::projectile::Projectile;

verus! {

/// The speed of the player along its forward vector, in world units per
/// second.
#[derive(Clone, Copy, Debug, PartialEq, Eq, Structural)]
pub struct PlayerMovementSpeed(pub i64);

/// The speed at which the player turns, in radians per second.
#[derive(Clone, Copy, Debug, PartialEq, Eq, Structural)]
pub struct PlayerRotationSpeed(pub i64);

/// How often the player may fire.
#[derive(Clone, Copy, Debug, PartialEq, Eq, Structural)]
pub struct PlayerFireDuration {
    /// The time since the last shot, in seconds.
    pub timer: i64,
    /// The most shots per second.
    pub fire_speed: i64,
}

/// Which of the player's controls are held down.
#[derive(Clone, Copy, Debug, PartialEq, Eq, Structural)]
pub struct PlayerInput {
    pub left: bool,
    pub right: bool,
    pub up: bool,
    pub fire: bool,
}

/// What the controls decide for one tick.
#[derive(Clone, Copy, Debug, PartialEq, Eq, Structural)]
pub struct PlayerCommand {
    /// The projectile to launch from where the player is, if it fires.
    pub shot: Option<Projectile>,
    /// The signed angle by which the player turns, counter-clockwise when
    /// positive.
    pub rotation: i64,
    /// The distance that the player, and the camera with it, then covers
    /// along the player's forward vector.
    pub distance: i64,
}

/// Why there is no player to track.
#[derive(Clone, Copy, Debug, PartialEq, Eq, Structural)]
pub enum PlayerError {
    /// No entity is marked as the player.
    NoPlayer,
    /// More than one entity is marked as the player.
    MultiplePlayers,
}

/// The projectile that the player fires: a thousand world units per second
/// fast, with a radius of thirty-two world units.
pub open spec fn player_shot() -> Projectile {
    Projectile { movement_speed: 8_388_608_000, collision_radius: 268_435_456 }
}

/// The sense in which the player turns: `1`, counter-clockwise, for left,
/// `-1` for right, nothing for both or neither.
pub open spec fn rotation_factor(input: PlayerInput) -> int {
    (if input.left { 1int } else { 0int }) - (if input.right { 1int } else { 0int })
}

/// Whether the player moves forward: `1` or `0`.
pub open spec fn movement_factor(input: PlayerInput) -> int {
    if input.up {
        1
    } else {
        0
    }
}

/// What a rate that is taken or left by `factor` comes to in a tick of `dt`
/// seconds.
pub open spec fn controlled(factor: int, rate: int, dt: int) -> int {
    saturated(scaled_down(factor * rate * dt))
}

/// More than `1 / fire_speed` seconds have passed since the last shot. A
/// fire speed of zero never lets the player fire.
pub open spec fn ready_to_fire(fire: PlayerFireDuration) -> bool {
    if fire.fire_speed > 0 {
        fire.timer * fire.fire_speed > ONE * ONE
    } else if fire.fire_speed < 0 {
        fire.timer * fire.fire_speed < ONE * ONE
    } else {
        false
    }
}

/// The player fires in this tick.
pub open spec fn fires(input: PlayerInput, fire: PlayerFireDuration) -> bool {
    input.fire && ready_to_fire(fire)
}

/// The time since the last shot after a tick in which `elapsed` seconds
/// have passed.
pub open spec fn timer_after(input: PlayerInput, fire: PlayerFireDuration, elapsed: int) -> int {
    if fires(input, fire) {
        saturated(elapsed)
    } else {
        saturated(fire.timer + elapsed)
    }
}

/// What the controls decide for one tick of `dt` seconds.
pub open spec fn commanded(
    input: PlayerInput,
    movement_speed: PlayerMovementSpeed,
    rotation_speed: PlayerRotationSpeed,
    fire: PlayerFireDuration,
    dt: int,
) -> PlayerCommand {
    PlayerCommand {
        shot: if fires(input, fire) {
            Some(player_shot())
        } else {
            None
        },
        rotation: controlled(rotation_factor(input), rotation_speed.0 as int, dt) as i64,
        distance: controlled(movement_factor(input), movement_speed.0 as int, dt) as i64,
    }
}

/// The one player among the entities marked as such.
pub fn single_player(players: &Vec<KinematicState>) -> (found: Result<KinematicState, PlayerError>)
    ensures
        players.len() == 1 <==> found is Ok,
        found matches Ok(player) ==> player == players@[0],
        players.len() == 0 <==> found == Err::<KinematicState, PlayerError>(PlayerError::NoPlayer),
        players.len() > 1 <==> found == Err::<KinematicState, PlayerError>(PlayerError::MultiplePlayers),
{
    if players.len() == 0 {
        Err(PlayerError::NoPlayer)
    } else if players.len() > 1 {
        Err(PlayerError::MultiplePlayers)
    } else {
        Ok(players[0])
    }
}

/// Tells whether enough time has passed since the last shot.
pub fn can_fire(fire: &PlayerFireDuration) -> (ready: bool)
    ensures
        ready == ready_to_fire(*fire),
{
    proof {
        lemma_product_fits(fire.timer, fire.fire_speed);
    }
    let product: i128 = (fire.timer as i128) * (fire.fire_speed as i128);
    if fire.fire_speed > 0 {
        product > 70_368_744_177_664
    } else if fire.fire_speed < 0 {
        product < 70_368_744_177_664
    } else {
        false
    }
}

/// A rate taken forward, backward or not at all over a tick.
fn control(factor: i8, rate: i64, dt: i64) -> (r: i64)
    requires
        -1 <= factor <= 1,
    ensures
        r == controlled(factor as int, rate as int, dt as int),
{
    proof {
        lemma_product_fits(rate, dt);
        assert(factor * rate * dt == factor * (rate * dt)) by (nonlinear_arith);
        assert(-0x4000_0000_0000_0000_0000_0000_0000_0000 <= factor * (rate * dt)
            <= 0x4000_0000_0000_0000_0000_0000_0000_0000) by (nonlinear_arith)
            requires
                -1 <= factor <= 1,
                -0x4000_0000_0000_0000_0000_0000_0000_0000 <= rate * dt
                    <= 0x4000_0000_0000_0000_0000_0000_0000_0000,
        ;
    }
    let wide: i128 = (rate as i128) * (dt as i128);
    let signed: i128 = if factor > 0 {
        wide
    } else if factor < 0 {
        -wide
    } else {
        0
    };
    proof {
        assert(signed == factor * (rate * dt)) by (nonlinear_arith)
            requires
                -1 <= factor <= 1,
                wide == rate * dt,
                signed == if factor > 0 {
                    wide as int
                } else if factor < 0 {
                    -wide
                } else {
                    0
                },
        ;
    }
    saturate(scale_down(signed))
}

/// Decides what the player does in one tick of `dt` seconds, `elapsed`
/// seconds after the tick before: whether it fires, by what angle it turns,
/// and how far it then moves. A shot sets the time since the last shot back
/// to nothing before `elapsed` is added to it.
pub fn player_movement_system(
    input: &PlayerInput,
    movement_speed: PlayerMovementSpeed,
    rotation_speed: PlayerRotationSpeed,
    fire: &mut PlayerFireDuration,
    elapsed: i64,
    dt: i64,
) -> (command: PlayerCommand)
    ensures
        command == commanded(*input, movement_speed, rotation_speed, *old(fire), dt as int),
        final(fire).fire_speed == old(fire).fire_speed,
        final(fire).timer == timer_after(*input, *old(fire), elapsed as int),
{
    let turn: i8 = if input.left && !input.right {
        1
    } else if input.right && !input.left {
        -1
    } else {
        0
    };
    let thrust: i8 = if input.up {
        1
    } else {
        0
    };
    let shot = if input.fire && can_fire(fire) {
        fire.timer = 0;
        Some(Projectile { movement_speed: 8_388_608_000, collision_radius: 268_435_456 })
    } else {
        None
    };
    fire.timer = saturate((fire.timer as i128) + (elapsed as i128));
    PlayerCommand {
        shot,
        rotation: control(turn, rotation_speed.0, dt),
        distance: control(thrust, movement_speed.0, dt),
    }
}

} // verus!
