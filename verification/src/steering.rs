//! Steering: the new orientation of an entity that tracks the player, under
//! one of two policies. Steering never moves an entity.
//!
//! One step of rate-limited pursuit is the host's: the arc cosine that turns
//! the cosine between the forward vector and the direction to the player
//! into an angle. The engine hands out the cosine, takes the angle as a
//! measured value, and decides the rest. It is also the host that turns the
//! entity by the angle that the engine decides on.

use vstd::prelude::*;
use crate::fixed::{magnitude, multiply, saturate, saturated, scale_down, scaled_down, times, EPSILON, ONE};
use crate::direction::{direction_to, is_unit_toward, lemma_unit_toward_exists, unit_toward};
use crate::plane::{dot, dot_product, is_unit, right_dot, right_dot_product, Direction, KinematicState, Position};

verus! {

/// How far the player lies off an entity's forward vector, as the host
/// measured it.
#[derive(Clone, Copy, Debug, PartialEq, Eq, Structural)]
pub struct Bearing {
    /// The angle between the entity's forward vector and the direction to
    /// the player, in radians: the arc cosine of `cosine_to_player`.
    pub angle: i64,
}

/// How an entity tracks the player.
#[derive(Clone, Copy, Debug, PartialEq, Eq, Structural)]
pub enum SteeringBehavior {
    /// Face the player at once, every tick.
    InstantSnap,
    /// Turn toward the player by at most `rotation_speed` radians per second.
    RateLimitedPursuit { rotation_speed: i64 },
}

/// What becomes of an entity's orientation in one tick.
#[derive(Clone, Copy, Debug, PartialEq, Eq, Structural)]
pub enum Steering {
    /// The orientation stays as it is.
    Hold,
    /// The forward vector becomes `forward`.
    Face { forward: Direction },
    /// The orientation turns by `angle` radians, counter-clockwise when
    /// positive and clockwise when negative.
    Rotate { angle: i64 },
}

/// The entity stands where the player stands, so there is no direction to
/// the player.
pub open spec fn coincident(state: KinematicState, player: Position) -> bool {
    state.position == player
}

/// The unit direction from the entity to the player, where they do not
/// coincide.
pub open spec fn to_player(state: KinematicState, player: Position) -> Direction {
    unit_toward(state.position, player)
}

/// The forward vector points at the target: their dot product is within
/// `EPSILON` of one.
pub open spec fn aligned(forward: Direction, target: Direction) -> bool {
    magnitude(dot(forward, target) - ONE * ONE) < EPSILON * ONE
}

/// The entity has nothing to turn to: it stands where the player stands, or
/// it faces the player already.
pub open spec fn settled(state: KinematicState, player: Position) -> bool {
    coincident(state, player) || aligned(state.forward, to_player(state, player))
}

/// The sense of the turn toward the target: `-1`, clockwise, when the target
/// lies to the right of the forward vector or straight behind it, and `1`,
/// counter-clockwise, when it lies to the left.
pub open spec fn rotation_sign(forward: Direction, target: Direction) -> int {
    if right_dot(forward, target) >= 0 {
        -1
    } else {
        1
    }
}

/// The cosine of the angle between the forward vector and the target, kept
/// within `-ONE ..= ONE` so that its arc cosine is always defined.
pub open spec fn clamped_cosine(forward: Direction, target: Direction) -> int {
    let cosine = scaled_down(dot(forward, target));
    if cosine < -ONE {
        -ONE as int
    } else if cosine > ONE {
        ONE as int
    } else {
        cosine
    }
}

/// The cosine of the angle between the entity's forward vector and the
/// direction to the player: `ONE`, the cosine of no angle, where they
/// coincide.
pub open spec fn cosine_to_player(state: KinematicState, player: Position) -> int {
    if coincident(state, player) {
        ONE as int
    } else {
        clamped_cosine(state.forward, to_player(state, player))
    }
}

/// The smaller of two scalars.
pub open spec fn lesser(a: int, b: int) -> int {
    if a < b {
        a
    } else {
        b
    }
}

/// The angle that an entity may turn in one tick.
pub open spec fn turn_budget(rotation_speed: int, dt: int) -> int {
    times(rotation_speed, dt)
}

/// The forward vector after one tick of instant snapping: the unit
/// direction to the player, or the forward vector as it was where there is
/// no such direction.
pub open spec fn snapped_forward(state: KinematicState, player: Position) -> Direction {
    if coincident(state, player) {
        state.forward
    } else {
        to_player(state, player)
    }
}

/// The signed angle of one tick of rate-limited pursuit: nothing when there
/// is no direction to the player or the entity already faces it; otherwise
/// the turn budget or the whole remaining angle, whichever is less, in the
/// sense of `rotation_sign`.
pub open spec fn pursuit_step(
    state: KinematicState,
    player: Position,
    bearing: Bearing,
    rotation_speed: int,
    dt: int,
) -> int {
    if settled(state, player) {
        0
    } else {
        saturated(
            rotation_sign(state.forward, to_player(state, player)) * lesser(
                turn_budget(rotation_speed, dt),
                bearing.angle as int,
            ),
        )
    }
}

/// The angle that is left between the forward vector and the target after a
/// turn of `step`.
pub open spec fn remaining_angle(bearing: Bearing, step: int) -> int {
    bearing.angle - magnitude(step)
}

/// What one tick of `behavior` does to the orientation.
pub open spec fn steering_of(
    behavior: SteeringBehavior,
    state: KinematicState,
    player: Position,
    bearing: Bearing,
    dt: int,
) -> Steering {
    match behavior {
        SteeringBehavior::InstantSnap => if coincident(state, player) {
            Steering::Hold
        } else {
            Steering::Face { forward: to_player(state, player) }
        },
        SteeringBehavior::RateLimitedPursuit { rotation_speed } => if settled(state, player) {
            Steering::Hold
        } else {
            Steering::Rotate {
                angle: pursuit_step(state, player, bearing, rotation_speed as int, dt) as i64,
            }
        },
    }
}

/// Tells whether the forward vector already points at the target.
pub fn is_aligned(forward: Direction, target: Direction) -> (r: bool)
    ensures
        r == aligned(forward, target),
{
    let off: i128 = dot_product(forward, target) - 70_368_744_177_664;
    -8_388_608 < off && off < 8_388_608
}

/// Computes the cosine between two directions, kept within the domain of
/// the arc cosine.
fn cosine_between(forward: Direction, target: Direction) -> (cosine: i64)
    ensures
        cosine == clamped_cosine(forward, target),
        -ONE <= cosine <= ONE,
{
    let cosine: i128 = scale_down(dot_product(forward, target));
    if cosine < -8_388_608 {
        -8_388_608
    } else if cosine > 8_388_608 {
        8_388_608
    } else {
        cosine as i64
    }
}

/// The cosine that the host takes the arc cosine of to measure
/// `Bearing::angle`. It never leaves the domain of the arc cosine.
pub fn heading_cosine(state: &KinematicState, player: Position) -> (cosine: i64)
    ensures
        cosine == cosine_to_player(*state, player),
        -ONE <= cosine <= ONE,
{
    match direction_to(state.position, player) {
        None => 8_388_608,
        Some(target) => cosine_between(state.forward, target),
    }
}

/// One tick of instant snapping: the entity faces the player, unless it
/// stands where the player stands, in which case it keeps its orientation.
/// Where it turns, each component of its new forward vector is the scalar
/// nearest to that component of the true unit vector to the player.
pub fn instant_snap(state: &KinematicState, player: Position) -> (next: KinematicState)
    ensures
        next.position == state.position,
        next.forward == snapped_forward(*state, player),
        !coincident(*state, player) ==> is_unit_toward(next.forward, state.position, player) && is_unit(
            next.forward,
        ),
        state.well_formed() ==> next.well_formed(),
{
    match direction_to(state.position, player) {
        None => *state,
        Some(target) => KinematicState { position: state.position, forward: target },
    }
}

/// One tick of rate-limited pursuit: the signed angle by which the host is
/// to turn the entity.
pub fn rate_limited_pursuit(
    state: &KinematicState,
    player: Position,
    bearing: Bearing,
    rotation_speed: i64,
    dt: i64,
) -> (step: i64)
    ensures
        step == pursuit_step(*state, player, bearing, rotation_speed as int, dt as int),
{
    match direction_to(state.position, player) {
        None => 0,
        Some(target) => {
            if is_aligned(state.forward, target) {
                return 0;
            }
            let budget: i64 = multiply(rotation_speed, dt);
            let limit: i64 = if budget < bearing.angle {
                budget
            } else {
                bearing.angle
            };
            if right_dot_product(state.forward, target) >= 0 {
                saturate(-(limit as i128))
            } else {
                limit
            }
        },
    }
}

/// One tick of steering under `behavior`.
pub fn steer(
    behavior: SteeringBehavior,
    state: &KinematicState,
    player: Position,
    bearing: Bearing,
    dt: i64,
) -> (steering: Steering)
    ensures
        steering == steering_of(behavior, *state, player, bearing, dt as int),
{
    match direction_to(state.position, player) {
        None => Steering::Hold,
        Some(target) => match behavior {
            SteeringBehavior::InstantSnap => Steering::Face { forward: target },
            SteeringBehavior::RateLimitedPursuit { rotation_speed } => {
                if is_aligned(state.forward, target) {
                    Steering::Hold
                } else {
                    Steering::Rotate { angle: rate_limited_pursuit(state, player, bearing, rotation_speed, dt) }
                }
            },
        },
    }
}

/// Instant-snap exactness: after one tick of instant snapping, the forward
/// vector of an entity that does not stand on the player is the unit vector
/// to the player, each component to the nearest scalar, and it has unit
/// length.
pub proof fn lemma_instant_snap_is_exact(state: KinematicState, player: Position)
    requires
        !coincident(state, player),
    ensures
        is_unit_toward(snapped_forward(state, player), state.position, player),
        is_unit(snapped_forward(state, player)),
{
    lemma_unit_toward_exists(state.position, player);
}

/// Idempotence of alignment: an entity in rate-limited pursuit that faces
/// the player is not turned, whatever its rotation speed, the tick's length
/// and the measured angle. While the player and the entity stay where they
/// are, nothing that this decision reads changes, so every later tick holds
/// the orientation too.
pub proof fn lemma_alignment_is_idempotent(
    state: KinematicState,
    player: Position,
    bearing: Bearing,
    rotation_speed: i64,
    dt: i64,
)
    requires
        settled(state, player),
    ensures
        pursuit_step(state, player, bearing, rotation_speed as int, dt as int) == 0,
        steering_of(
            SteeringBehavior::RateLimitedPursuit { rotation_speed },
            state,
            player,
            bearing,
            dt as int,
        ) == Steering::Hold,
{
}

/// A positive rotation speed and a tick that is not negative give a turn
/// budget that is not negative.
proof fn lemma_turn_budget_is_not_negative(rotation_speed: i64, dt: i64)
    requires
        rotation_speed > 0,
        dt >= 0,
    ensures
        0 <= turn_budget(rotation_speed as int, dt as int) <= i64::MAX,
{
    assert(rotation_speed * dt >= 0) by (nonlinear_arith)
        requires
            rotation_speed > 0,
            dt >= 0,
    ;
}

/// No overshoot: one tick of rate-limited pursuit turns the entity by no
/// more than the turn budget and by no more than the angle that is left to
/// the target, so the angle that is left afterwards is not negative and not
/// larger than before.
pub proof fn lemma_pursuit_never_overshoots(
    state: KinematicState,
    player: Position,
    bearing: Bearing,
    rotation_speed: i64,
    dt: i64,
)
    requires
        rotation_speed > 0,
        dt >= 0,
        bearing.angle >= 0,
    ensures
        magnitude(pursuit_step(state, player, bearing, rotation_speed as int, dt as int)) <= bearing.angle,
        magnitude(pursuit_step(state, player, bearing, rotation_speed as int, dt as int)) <= turn_budget(
            rotation_speed as int,
            dt as int,
        ),
        0 <= remaining_angle(bearing, pursuit_step(state, player, bearing, rotation_speed as int, dt as int))
            <= bearing.angle,
        !settled(state, player) ==> magnitude(
            pursuit_step(state, player, bearing, rotation_speed as int, dt as int),
        ) == lesser(turn_budget(rotation_speed as int, dt as int), bearing.angle as int),
{
    lemma_turn_budget_is_not_negative(rotation_speed, dt);
    let limit = lesser(turn_budget(rotation_speed as int, dt as int), bearing.angle as int);
    assert((-1) * limit == -limit);
    assert(1 * limit == limit);
}

/// The sign convention: a player to the right of the forward vector, or
/// straight behind it, is turned to clockwise, which is a step that is not
/// positive; a player to the left is turned to counter-clockwise.
pub proof fn lemma_turn_sense(
    state: KinematicState,
    player: Position,
    bearing: Bearing,
    rotation_speed: i64,
    dt: i64,
)
    requires
        rotation_speed > 0,
        dt >= 0,
        bearing.angle >= 0,
    ensures
        right_dot(state.forward, to_player(state, player)) >= 0 ==> pursuit_step(
            state,
            player,
            bearing,
            rotation_speed as int,
            dt as int,
        ) <= 0,
        right_dot(state.forward, to_player(state, player)) < 0 ==> pursuit_step(
            state,
            player,
            bearing,
            rotation_speed as int,
            dt as int,
        ) >= 0,
{
    lemma_turn_budget_is_not_negative(rotation_speed, dt);
    let limit = lesser(turn_budget(rotation_speed as int, dt as int), bearing.angle as int);
    assert((-1) * limit == -limit);
    assert(1 * limit == limit);
}

/// Two players that are mirror images of each other in the forward axis of
/// an entity, and off that axis, are turned to by opposite steps.
pub proof fn lemma_mirrored_players_turn_opposite(
    state: KinematicState,
    player: Position,
    mirrored: Position,
    bearing: Bearing,
    rotation_speed: i64,
    dt: i64,
)
    requires
        rotation_speed > 0,
        dt >= 0,
        bearing.angle >= 0,
        !coincident(state, player),
        !coincident(state, mirrored),
        dot(state.forward, to_player(state, player)) == dot(state.forward, to_player(state, mirrored)),
        right_dot(state.forward, to_player(state, player)) == -right_dot(
            state.forward,
            to_player(state, mirrored),
        ),
        right_dot(state.forward, to_player(state, player)) != 0,
    ensures
        pursuit_step(state, player, bearing, rotation_speed as int, dt as int) == -pursuit_step(
            state,
            mirrored,
            bearing,
            rotation_speed as int,
            dt as int,
        ),
{
    lemma_turn_budget_is_not_negative(rotation_speed, dt);
    let limit = lesser(turn_budget(rotation_speed as int, dt as int), bearing.angle as int);
    assert((-1) * limit == -limit);
    assert(1 * limit == limit);
}

} // verus!
