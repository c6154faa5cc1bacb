//! Unit directions: the direction from one point to another, normalised
//! without leaving the integers.

use vstd::prelude::*;
use crate::fixed::{magnitude, ONE};
use crate::plane::{is_unit, Direction, Position};

verus! {

/// Differences between coordinates are halved until both are below this
/// bound, two to the 40th, before they are normalised.
pub const COARSE_LIMIT: i128 = 1_099_511_627_776;

/// Half of `v`, rounded toward zero.
pub open spec fn halved(v: int) -> int {
    if v >= 0 {
        v / 2
    } else {
        -((-v) / 2)
    }
}

/// Both differences are small enough to be normalised as they are.
pub open spec fn is_coarse(dx: int, dy: int) -> bool {
    magnitude(dx) < COARSE_LIMIT && magnitude(dy) < COARSE_LIMIT
}

/// The two differences, halved together until both are below
/// `COARSE_LIMIT`. Points that are closer than that on both axes, which is
/// 131072 world units, keep their differences as they are.
pub open spec fn coarsened(dx: int, dy: int) -> (int, int)
    decreases magnitude(dx) + magnitude(dy),
{
    if is_coarse(dx, dy) {
        (dx, dy)
    } else {
        coarsened(halved(dx), halved(dy))
    }
}

/// `r` is the scalar nearest to `ONE * d / sqrt(s)`, with a half rounded
/// away from zero: `|r| - 1/2 <= ONE * |d| / sqrt(s) < |r| + 1/2`, and `r`
/// has the sign of `d`.
pub open spec fn is_nearest_ratio(r: int, d: int, s: int) -> bool {
    &&& d >= 0 ==> r >= 0
    &&& d <= 0 ==> r <= 0
    &&& r != 0 ==> (2 * magnitude(r) - 1) * (2 * magnitude(r) - 1) * s <= 4 * ONE * ONE * (d * d)
    &&& 4 * ONE * ONE * (d * d) < (2 * magnitude(r) + 1) * (2 * magnitude(r) + 1) * s
}

/// `d` is the unit vector along `(dx, dy)`, each component rounded to the
/// nearest scalar.
pub open spec fn is_unit_along(d: Direction, dx: int, dy: int) -> bool {
    &&& is_nearest_ratio(d.x as int, dx, dx * dx + dy * dy)
    &&& is_nearest_ratio(d.y as int, dy, dx * dx + dy * dy)
}

/// `d` is the unit direction from `from` to `to`.
pub open spec fn is_unit_toward(d: Direction, from: Position, to: Position) -> bool {
    is_unit_along(d, coarsened(to.x - from.x, to.y - from.y).0, coarsened(to.x - from.x, to.y - from.y).1)
}

/// The unit direction from `from` to `to`, where the two differ.
pub open spec fn unit_toward(from: Position, to: Position) -> Direction {
    choose|d: Direction| is_unit_toward(d, from, to)
}

/// `r` is the integer square root of `n`.
pub open spec fn is_integer_sqrt(r: int, n: int) -> bool {
    0 <= r && r * r <= n < (r + 1) * (r + 1)
}

/// Squares grow with their roots.
proof fn lemma_square_is_monotonic(a: int, b: int)
    requires
        0 <= a <= b,
    ensures
        a * a <= b * b,
{
    assert(a * a <= b * b) by (nonlinear_arith)
        requires
            0 <= a <= b,
    ;
}

/// The integer square root of a number up to two to the 48th.
fn integer_sqrt(n: u64) -> (r: u64)
    requires
        n <= 0x1_0000_0000_0000,
    ensures
        is_integer_sqrt(r as int, n as int),
        r <= 0x100_0000,
{
    let mut low: u64 = 0;
    let mut high: u64 = 0x100_0001;
    assert(0x100_0001 * 0x100_0001 > 0x1_0000_0000_0000) by (nonlinear_arith);
    while high - low > 1
        invariant
            low < high <= 0x100_0001,
            low * low <= n < high * high,
        decreases high - low,
    {
        let middle: u64 = low + (high - low) / 2;
        proof {
            lemma_square_is_monotonic(middle as int, 0x100_0001);
        }
        if middle * middle <= n {
            low = middle;
        } else {
            high = middle;
        }
    }
    low
}

/// Half of the integer square root of `4 * ONE * ONE * d * d / s`, rounded
/// up, is the scalar nearest to `ONE * d / sqrt(s)`.
proof fn lemma_rounded_root(root: int, quotient: int, s: int, d: int)
    requires
        s > 0,
        d >= 0,
        quotient == (4 * ONE * ONE * (d * d)) / s,
        is_integer_sqrt(root, quotient),
    ensures
        is_nearest_ratio((root + 1) / 2, d, s),
{
    let n = 4 * ONE * ONE * (d * d);
    let r = (root + 1) / 2;
    assert(d * d >= 0) by (nonlinear_arith);
    assert(quotient * s <= n < (quotient + 1) * s) by (nonlinear_arith)
        requires
            s > 0,
            quotient == n / s,
    ;
    assert(root * root * s <= quotient * s) by (nonlinear_arith)
        requires
            s > 0,
            root * root <= quotient,
    ;
    assert((quotient + 1) * s <= (root + 1) * (root + 1) * s) by (nonlinear_arith)
        requires
            s > 0,
            quotient + 1 <= (root + 1) * (root + 1),
    ;
    if root == 2 * r {
        if r != 0 {
            assert((2 * r - 1) * (2 * r - 1) * s <= (2 * r) * (2 * r) * s) by (nonlinear_arith)
                requires
                    s > 0,
                    r > 0,
            ;
        }
    } else {
        assert(root == 2 * r - 1);
        assert((2 * r) * (2 * r) * s <= (2 * r + 1) * (2 * r + 1) * s) by (nonlinear_arith)
            requires
                s > 0,
                r >= 0,
        ;
    }
    if d == 0 {
        assert(d * d == 0);
        assert(n == 0);
        assert(quotient == 0);
        assert(root == 0) by (nonlinear_arith)
            requires
                0 <= root,
                root * root <= 0,
        ;
    }
}

/// The component of the unit vector along a difference `d`, where `s` is
/// the sum of the squares of both differences.
fn unit_component(d: i128, s: u128) -> (r: i32)
    requires
        -COARSE_LIMIT < d < COARSE_LIMIT,
        s > 0,
        d * d <= s,
    ensures
        is_nearest_ratio(r as int, d as int, s as int),
        -ONE <= r <= ONE,
{
    let m: u128 = if d < 0 {
        (-d) as u128
    } else {
        d as u128
    };
    proof {
        assert(m * m == d * d) by (nonlinear_arith)
            requires
                m == d || m == -d,
        ;
        assert(m * m < 0x1_0000_0000_0000_0000_0000) by (nonlinear_arith)
            requires
                0 <= m < 0x100_0000_0000,
        ;
    }
    let squared: u128 = m * m;
    let n: u128 = 0x1_0000_0000_0000 * squared;
    let quotient: u128 = n / s;
    proof {
        assert(4 * ONE * ONE == 0x1_0000_0000_0000);
        assert(n == 4 * ONE * ONE * (m * m));
        assert(n / s <= 0x1_0000_0000_0000) by (nonlinear_arith)
            requires
                s > 0,
                n == 0x1_0000_0000_0000 * squared,
                squared <= s,
        ;
    }
    let root: u64 = integer_sqrt(quotient as u64);
    let half: u64 = (root + 1) / 2;
    proof {
        lemma_rounded_root(root as int, quotient as int, s as int, m as int);
        assert(magnitude(-(half as int)) == half);
    }
    if d < 0 {
        -(half as i32)
    } else {
        half as i32
    }
}

/// Halves the two differences together until both are below
/// `COARSE_LIMIT`.
fn coarsen(dx: i128, dy: i128) -> (r: (i128, i128))
    requires
        -0x2_0000_0000_0000_0000 < dx < 0x2_0000_0000_0000_0000,
        -0x2_0000_0000_0000_0000 < dy < 0x2_0000_0000_0000_0000,
    ensures
        (r.0 as int, r.1 as int) == coarsened(dx as int, dy as int),
        is_coarse(r.0 as int, r.1 as int),
        dx != 0 || dy != 0 ==> r.0 != 0 || r.1 != 0,
{
    let mut x: i128 = dx;
    let mut y: i128 = dy;
    while x <= -COARSE_LIMIT || x >= COARSE_LIMIT || y <= -COARSE_LIMIT || y >= COARSE_LIMIT
        invariant
            -0x2_0000_0000_0000_0000 < x < 0x2_0000_0000_0000_0000,
            -0x2_0000_0000_0000_0000 < y < 0x2_0000_0000_0000_0000,
            coarsened(x as int, y as int) == coarsened(dx as int, dy as int),
            dx != 0 || dy != 0 ==> x != 0 || y != 0,
        decreases magnitude(x as int) + magnitude(y as int),
    {
        x = x / 2;
        y = y / 2;
    }
    (x, y)
}

/// Every number that is not negative has an integer square root.
proof fn lemma_integer_sqrt_exists(n: int) -> (r: int)
    requires
        n >= 0,
    ensures
        is_integer_sqrt(r, n),
    decreases n,
{
    if n == 0 {
        assert(is_integer_sqrt(0, 0)) by (nonlinear_arith);
        0
    } else {
        let below = lemma_integer_sqrt_exists(n - 1);
        let above = below + 1;
        if above * above <= n {
            assert(above * above < (above + 1) * (above + 1)) by (nonlinear_arith)
                requires
                    above >= 0,
            ;
            above
        } else {
            below
        }
    }
}

/// The nearest ratio of the opposite difference is the opposite scalar.
proof fn lemma_nearest_ratio_mirrors(r: int, d: int, s: int)
    requires
        is_nearest_ratio(r, d, s),
    ensures
        is_nearest_ratio(-r, -d, s),
{
    assert((-d) * (-d) == d * d) by (nonlinear_arith);
}

/// There is a scalar nearest to `ONE * d / sqrt(s)`.
proof fn lemma_nearest_ratio_exists(d: int, s: int) -> (r: int)
    requires
        s > 0,
    ensures
        is_nearest_ratio(r, d, s),
{
    let m = magnitude(d);
    assert(m * m >= 0) by (nonlinear_arith);
    let n = 4 * ONE * ONE * (m * m);
    assert(n / s >= 0) by (nonlinear_arith)
        requires
            n >= 0,
            s > 0,
    ;
    let root = lemma_integer_sqrt_exists(n / s);
    lemma_rounded_root(root, n / s, s, m);
    if d < 0 {
        lemma_nearest_ratio_mirrors((root + 1) / 2, m, s);
        -((root + 1) / 2)
    } else {
        (root + 1) / 2
    }
}

/// There is one scalar nearest to `ONE * d / sqrt(s)`, not two.
proof fn lemma_nearest_ratio_is_unique(a: int, b: int, d: int, s: int)
    requires
        s > 0,
        is_nearest_ratio(a, d, s),
        is_nearest_ratio(b, d, s),
    ensures
        a == b,
{
    let n = 4 * ONE * ONE * (d * d);
    let p = magnitude(a);
    let q = magnitude(b);
    if p < q {
        assert((2 * p + 1) * (2 * p + 1) * s <= (2 * q - 1) * (2 * q - 1) * s) by (nonlinear_arith)
            requires
                s > 0,
                0 <= p,
                p + 1 <= q,
        ;
    }
    if q < p {
        assert((2 * q + 1) * (2 * q + 1) * s <= (2 * p - 1) * (2 * p - 1) * s) by (nonlinear_arith)
            requires
                s > 0,
                0 <= q,
                q + 1 <= p,
        ;
    }
}

/// The scalar nearest to `ONE * d / sqrt(s)` does not exceed `ONE` where
/// `d * d` does not exceed `s`.
proof fn lemma_nearest_ratio_is_bounded(r: int, d: int, s: int)
    requires
        s > 0,
        d * d <= s,
        is_nearest_ratio(r, d, s),
    ensures
        magnitude(r) <= ONE,
{
    let a = magnitude(r);
    if a > ONE {
        assert((2 * a - 1) * (2 * a - 1) * s > 4 * ONE * ONE * s) by (nonlinear_arith)
            requires
                s > 0,
                a >= ONE + 1,
        ;
        assert(4 * ONE * ONE * (d * d) <= 4 * ONE * ONE * s) by (nonlinear_arith)
            requires
                d * d <= s,
        ;
    }
}

/// Unit length: the vector whose components are the nearest scalars to the
/// components of the true unit vector is as long as `is_unit` asks.
pub proof fn lemma_unit_along_has_unit_length(d: Direction, dx: int, dy: int)
    requires
        dx != 0 || dy != 0,
        is_unit_along(d, dx, dy),
    ensures
        is_unit(d),
{
    let s = dx * dx + dy * dy;
    let a = magnitude(d.x as int);
    let b = magnitude(d.y as int);
    let n = 4 * ONE * ONE;
    assert(dx * dx >= 0 && dy * dy >= 0) by (nonlinear_arith);
    assert(s > 0) by (nonlinear_arith)
        requires
            dx != 0 || dy != 0,
            s == dx * dx + dy * dy,
    ;
    lemma_nearest_ratio_is_bounded(d.x as int, dx, s);
    lemma_nearest_ratio_is_bounded(d.y as int, dy, s);
    assert(n * (dx * dx) + n * (dy * dy) == n * s) by (nonlinear_arith)
        requires
            s == dx * dx + dy * dy,
    ;
    // not too long
    let low_a = if a != 0 {
        (2 * a - 1) * (2 * a - 1)
    } else {
        0
    };
    let low_b = if b != 0 {
        (2 * b - 1) * (2 * b - 1)
    } else {
        0
    };
    assert(low_a * s <= n * (dx * dx)) by (nonlinear_arith)
        requires
            a != 0 ==> (2 * a - 1) * (2 * a - 1) * s <= n * (dx * dx),
            low_a == if a != 0 {
                (2 * a - 1) * (2 * a - 1)
            } else {
                0
            },
            dx * dx >= 0,
            n >= 0,
    ;
    assert(low_b * s <= n * (dy * dy)) by (nonlinear_arith)
        requires
            b != 0 ==> (2 * b - 1) * (2 * b - 1) * s <= n * (dy * dy),
            low_b == if b != 0 {
                (2 * b - 1) * (2 * b - 1)
            } else {
                0
            },
            dy * dy >= 0,
            n >= 0,
    ;
    assert(low_a + low_b <= n) by (nonlinear_arith)
        requires
            s > 0,
            low_a * s <= n * (dx * dx),
            low_b * s <= n * (dy * dy),
            n * (dx * dx) + n * (dy * dy) == n * s,
    ;
    assert(4 * (a * a) - 4 * a <= low_a) by (nonlinear_arith)
        requires
            a >= 0,
            low_a == if a != 0 {
                (2 * a - 1) * (2 * a - 1)
            } else {
                0
            },
    ;
    assert(4 * (b * b) - 4 * b <= low_b) by (nonlinear_arith)
        requires
            b >= 0,
            low_b == if b != 0 {
                (2 * b - 1) * (2 * b - 1)
            } else {
                0
            },
    ;
    // not too short
    let high_a = (2 * a + 1) * (2 * a + 1);
    let high_b = (2 * b + 1) * (2 * b + 1);
    assert(n * s < (high_a + high_b) * s) by (nonlinear_arith)
        requires
            n * (dx * dx) < high_a * s,
            n * (dy * dy) < high_b * s,
            n * (dx * dx) + n * (dy * dy) == n * s,
    ;
    assert(n < high_a + high_b) by (nonlinear_arith)
        requires
            s > 0,
            n * s < (high_a + high_b) * s,
    ;
    assert(high_a == 4 * (a * a) + 4 * a + 1) by (nonlinear_arith)
        requires
            high_a == (2 * a + 1) * (2 * a + 1),
    ;
    assert(high_b == 4 * (b * b) + 4 * b + 1) by (nonlinear_arith)
        requires
            high_b == (2 * b + 1) * (2 * b + 1),
    ;
    assert(a * a == d.x * d.x) by (nonlinear_arith)
        requires
            a == d.x || a == -d.x,
    ;
    assert(b * b == d.y * d.y) by (nonlinear_arith)
        requires
            b == d.y || b == -d.y,
    ;
}

/// Halving leaves small differences that are not both zero.
proof fn lemma_coarsened_is_coarse(dx: int, dy: int)
    requires
        dx != 0 || dy != 0,
    ensures
        is_coarse(coarsened(dx, dy).0, coarsened(dx, dy).1),
        coarsened(dx, dy).0 != 0 || coarsened(dx, dy).1 != 0,
    decreases magnitude(dx) + magnitude(dy),
{
    if !is_coarse(dx, dy) {
        lemma_coarsened_is_coarse(halved(dx), halved(dy));
    }
}

/// The sum of the squares of two differences that are not both zero.
proof fn lemma_squares_are_positive(dx: int, dy: int)
    requires
        dx != 0 || dy != 0,
    ensures
        dx * dx + dy * dy > 0,
        dx * dx <= dx * dx + dy * dy,
        dy * dy <= dx * dx + dy * dy,
{
    assert(dx * dx >= 0 && dy * dy >= 0) by (nonlinear_arith);
    assert(dx * dx + dy * dy > 0) by (nonlinear_arith)
        requires
            dx != 0 || dy != 0,
    ;
}

/// Two points that differ have a unit direction from the one to the other,
/// and it has unit length.
pub proof fn lemma_unit_toward_exists(from: Position, to: Position)
    requires
        from != to,
    ensures
        is_unit_toward(unit_toward(from, to), from, to),
        is_unit(unit_toward(from, to)),
{
    let dx = to.x - from.x;
    let dy = to.y - from.y;
    lemma_coarsened_is_coarse(dx, dy);
    let (cx, cy) = coarsened(dx, dy);
    let s = cx * cx + cy * cy;
    lemma_squares_are_positive(cx, cy);
    let x = lemma_nearest_ratio_exists(cx, s);
    let y = lemma_nearest_ratio_exists(cy, s);
    lemma_nearest_ratio_is_bounded(x, cx, s);
    lemma_nearest_ratio_is_bounded(y, cy, s);
    let witness = Direction { x: x as i32, y: y as i32 };
    assert(is_unit_toward(witness, from, to));
    lemma_unit_along_has_unit_length(unit_toward(from, to), cx, cy);
}

/// There is one unit direction from a point to another, not two.
pub proof fn lemma_unit_toward_is_determined(d: Direction, from: Position, to: Position)
    requires
        from != to,
        is_unit_toward(d, from, to),
    ensures
        d == unit_toward(from, to),
{
    let dx = to.x - from.x;
    let dy = to.y - from.y;
    lemma_coarsened_is_coarse(dx, dy);
    let (cx, cy) = coarsened(dx, dy);
    let s = cx * cx + cy * cy;
    lemma_squares_are_positive(cx, cy);
    let chosen = unit_toward(from, to);
    lemma_nearest_ratio_is_unique(d.x as int, chosen.x as int, cx, s);
    lemma_nearest_ratio_is_unique(d.y as int, chosen.y as int, cy, s);
}

/// The unit direction from `from` to `to`, or `None` where the two are the
/// same point. Each component is the nearest scalar to the component of the
/// true unit vector.
pub fn direction_to(from: Position, to: Position) -> (toward: Option<Direction>)
    ensures
        from == to <==> toward is None,
        toward matches Some(d) ==> d == unit_toward(from, to) && is_unit_toward(d, from, to) && is_unit(d),
{
    let dx: i128 = (to.x as i128) - (from.x as i128);
    let dy: i128 = (to.y as i128) - (from.y as i128);
    if dx == 0 && dy == 0 {
        return None;
    }
    let (cx, cy) = coarsen(dx, dy);
    proof {
        lemma_squares_are_positive(cx as int, cy as int);
        assert(cx * cx < 0x1_0000_0000_0000_0000_0000) by (nonlinear_arith)
            requires
                -0x100_0000_0000 < cx < 0x100_0000_0000,
        ;
        assert(cy * cy < 0x1_0000_0000_0000_0000_0000) by (nonlinear_arith)
            requires
                -0x100_0000_0000 < cy < 0x100_0000_0000,
        ;
    }
    let s: u128 = (cx * cx + cy * cy) as u128;
    let d = Direction { x: unit_component(cx, s), y: unit_component(cy, s) };
    proof {
        assert(is_unit_toward(d, from, to));
        lemma_unit_toward_is_determined(d, from, to);
        lemma_unit_along_has_unit_length(d, cx as int, cy as int);
    }
    Some(d)
}

} // verus!
