//! Points and directions of the 2D plane: `+X` right, `+Y` up.

use vstd::prelude::*;
use crate::fixed::ONE;

verus! {

/// A point of the plane, in world units.
#[derive(Clone, Copy, Debug, PartialEq, Eq, Structural)]
pub struct Position {
    pub x: i64,
    pub y: i64,
}

/// A direction in the plane. A unit direction has length `ONE`, so its
/// components lie within `-ONE ..= ONE`.
#[derive(Clone, Copy, Debug, PartialEq, Eq, Structural)]
pub struct Direction {
    pub x: i32,
    pub y: i32,
}

/// Position and orientation of one entity.
///
/// The orientation is held as the unit complex number that it turns the
/// canonical forward axis `+Y` into, which is the entity's forward vector.
/// Its right vector is the forward vector turned a quarter clockwise.
#[derive(Clone, Copy, Debug, PartialEq, Eq, Structural)]
pub struct KinematicState {
    pub position: Position,
    pub forward: Direction,
}

/// The dot product of two directions, at scale `ONE * ONE`.
pub open spec fn dot(a: Direction, b: Direction) -> int {
    a.x * b.x + a.y * b.y
}

/// The right vector of an entity whose forward vector is `forward`, as its
/// two components.
pub open spec fn right_of(forward: Direction) -> (int, int) {
    (forward.y as int, -(forward.x as int))
}

/// The dot product of the right vector of `forward` with `target`, at scale
/// `ONE * ONE`.
pub open spec fn right_dot(forward: Direction, target: Direction) -> int {
    right_of(forward).0 * target.x + right_of(forward).1 * target.y
}

/// The squared length of a direction, at scale `ONE * ONE`.
pub open spec fn length_squared(d: Direction) -> int {
    dot(d, d)
}

/// Whether `d` has length `ONE` as closely as rounding its two components
/// to whole scalars allows.
pub open spec fn is_unit(d: Direction) -> bool {
    ONE * ONE - 2 * ONE <= length_squared(d) <= ONE * ONE + 2 * ONE
}

impl KinematicState {
    /// The orientation is a rotation: the forward vector has unit length.
    pub open spec fn well_formed(self) -> bool {
        is_unit(self.forward)
    }
}

/// Products of direction components stay within 62 bits.
proof fn lemma_component_product_fits(a: i32, b: i32)
    ensures
        -0x4000_0000_0000_0000 <= a * b <= 0x4000_0000_0000_0000,
{
    assert(-0x4000_0000_0000_0000 <= a * b <= 0x4000_0000_0000_0000) by (nonlinear_arith)
        requires
            -0x8000_0000 <= a <= 0x7fff_ffff,
            -0x8000_0000 <= b <= 0x7fff_ffff,
    ;
}

/// The canonical forward axis, `+Y`.
pub fn canonical_forward() -> (d: Direction)
    ensures
        d == (Direction { x: 0, y: ONE as i32 }),
        is_unit(d),
{
    Direction { x: 0, y: 8_388_608 }
}

/// Computes the dot product of two directions.
pub fn dot_product(a: Direction, b: Direction) -> (r: i128)
    ensures
        r == dot(a, b),
        -0x8000_0000_0000_0000 <= r <= 0x8000_0000_0000_0000,
{
    proof {
        lemma_component_product_fits(a.x, b.x);
        lemma_component_product_fits(a.y, b.y);
    }
    (a.x as i128) * (b.x as i128) + (a.y as i128) * (b.y as i128)
}

/// Computes the dot product of the right vector of `forward` with `target`.
pub fn right_dot_product(forward: Direction, target: Direction) -> (r: i128)
    ensures
        r == right_dot(forward, target),
        -0x8000_0000_0000_0000 <= r <= 0x8000_0000_0000_0000,
{
    proof {
        lemma_component_product_fits(forward.y, target.x);
        lemma_component_product_fits(forward.x, target.y);
        assert(-(forward.x as int) * target.y == -(forward.x * target.y)) by (nonlinear_arith);
    }
    (forward.y as i128) * (target.x as i128) - (forward.x as i128) * (target.y as i128)
}

/// Tells whether a direction has unit length.
pub fn has_unit_length(d: Direction) -> (r: bool)
    ensures
        r == is_unit(d),
{
    let squared: i128 = dot_product(d, d);
    70_368_744_177_664 - 16_777_216 <= squared && squared <= 70_368_744_177_664 + 16_777_216
}

} // verus!
