//! Locomotion: an entity moves along its forward vector at a fixed speed.
//!
//! One tick takes the entity from `position` to
//! `position + forward * movement_speed * dt`. A coordinate that would leave
//! the range of a scalar stays at the end of the range.

use vstd::prelude::*;
use crate::fixed::{multiply, saturate, saturated, scale_down, scaled_down, times};
use crate::plane::{Direction, KinematicState, Position};

verus! {

/// The distance covered in one tick.
pub open spec fn travel(movement_speed: int, dt: int) -> int {
    times(movement_speed, dt)
}

/// The change of one coordinate when an entity covers `distance` along a
/// direction whose component on that axis is `axis`.
pub open spec fn shift(axis: int, distance: int) -> int {
    scaled_down(axis * distance)
}

/// One coordinate after the entity has covered `distance`.
pub open spec fn displaced(origin: int, axis: int, distance: int) -> int {
    saturated(origin + shift(axis, distance))
}

/// The point reached from `position` by covering `distance` along `forward`.
pub open spec fn moved(position: Position, forward: Direction, distance: int) -> Position {
    Position {
        x: displaced(position.x as int, forward.x as int, distance) as i64,
        y: displaced(position.y as int, forward.y as int, distance) as i64,
    }
}

/// The state of an entity after one tick of locomotion.
pub open spec fn advanced(state: KinematicState, movement_speed: int, dt: int) -> KinematicState {
    KinematicState {
        position: moved(state.position, state.forward, travel(movement_speed, dt)),
        forward: state.forward,
    }
}

/// The point reached after `ticks` ticks of covering `distance` along
/// `forward` each.
pub open spec fn moved_repeatedly(position: Position, forward: Direction, distance: int, ticks: nat) -> Position
    decreases ticks,
{
    if ticks == 0 {
        position
    } else {
        moved(moved_repeatedly(position, forward, distance, (ticks - 1) as nat), forward, distance)
    }
}

/// The product of a direction component and a distance fits in 128 bits
/// with room to spare.
proof fn lemma_shift_fits(axis: i32, distance: i64)
    ensures
        -0x4000_0000_0000_0000_0000_0000 <= axis * distance <= 0x4000_0000_0000_0000_0000_0000,
        -0x4000_0000_0000_0000_0000_0000 <= shift(axis as int, distance as int)
            <= 0x4000_0000_0000_0000_0000_0000,
{
    assert(-0x4000_0000_0000_0000_0000_0000 <= axis * distance <= 0x4000_0000_0000_0000_0000_0000)
        by (nonlinear_arith)
        requires
            -0x8000_0000 <= axis <= 0x7fff_ffff,
            -0x8000_0000_0000_0000 <= distance <= 0x7fff_ffff_ffff_ffff,
    ;
}

/// Moves one coordinate.
fn displace(origin: i64, axis: i32, distance: i64) -> (r: i64)
    ensures
        r == displaced(origin as int, axis as int, distance as int),
{
    proof {
        lemma_shift_fits(axis, distance);
    }
    let delta: i128 = scale_down((axis as i128) * (distance as i128));
    saturate((origin as i128) + delta)
}

/// Moves a point by `distance` along `forward`.
pub fn translate(position: Position, forward: Direction, distance: i64) -> (r: Position)
    ensures
        r == moved(position, forward, distance as int),
{
    Position {
        x: displace(position.x, forward.x, distance),
        y: displace(position.y, forward.y, distance),
    }
}

/// One tick of locomotion. The orientation is not touched.
pub fn advance(state: &KinematicState, movement_speed: i64, dt: i64) -> (next: KinematicState)
    ensures
        next == advanced(*state, movement_speed as int, dt as int),
        next.forward == state.forward,
        state.well_formed() ==> next.well_formed(),
{
    let distance: i64 = multiply(movement_speed, dt);
    KinematicState { position: translate(state.position, state.forward, distance), forward: state.forward }
}

/// A whole number of equal shifts lies between none of them and all of
/// them.
proof fn lemma_partial_shift(ticks: nat, step: int)
    requires
        ticks >= 1,
    ensures
        ticks * step == (ticks - 1) * step + step,
        step >= 0 ==> 0 <= (ticks - 1) * step <= ticks * step,
        step <= 0 ==> ticks * step <= (ticks - 1) * step <= 0,
{
    assert(ticks * step == (ticks - 1) * step + step) by (nonlinear_arith);
    assert(step >= 0 ==> (ticks - 1) * step >= 0) by (nonlinear_arith)
        requires
            ticks >= 1,
    ;
    assert(step <= 0 ==> (ticks - 1) * step <= 0) by (nonlinear_arith)
        requires
            ticks >= 1,
    ;
}

/// Locomotion linearity: an entity that keeps its orientation covers the
/// same shift in every tick, so after any number of ticks it has moved by
/// that many times the shift of one tick, as long as that keeps it within
/// the range of a scalar on both axes.
pub proof fn lemma_locomotion_is_linear(position: Position, forward: Direction, distance: i64, ticks: nat)
    requires
        i64::MIN <= position.x + ticks * shift(forward.x as int, distance as int) <= i64::MAX,
        i64::MIN <= position.y + ticks * shift(forward.y as int, distance as int) <= i64::MAX,
    ensures
        moved_repeatedly(position, forward, distance as int, ticks).x == position.x + ticks * shift(
            forward.x as int,
            distance as int,
        ),
        moved_repeatedly(position, forward, distance as int, ticks).y == position.y + ticks * shift(
            forward.y as int,
            distance as int,
        ),
    decreases ticks,
{
    if ticks > 0 {
        lemma_partial_shift(ticks, shift(forward.x as int, distance as int));
        lemma_partial_shift(ticks, shift(forward.y as int, distance as int));
        lemma_locomotion_is_linear(position, forward, distance, (ticks - 1) as nat);
    } else {
        assert(0 * shift(forward.x as int, distance as int) == 0);
        assert(0 * shift(forward.y as int, distance as int) == 0);
    }
}

} // verus!
