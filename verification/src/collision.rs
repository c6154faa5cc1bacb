//! Collision: which projectiles touch which enemies.
//!
//! The scan reads a snapshot and reports contacts. It removes nothing: the
//! host removes both entities of every contact once the scan is over.

use vstd::prelude::*;
use crate::plane::Position;

verus! {

/// What the scan reads of one projectile or enemy.
#[derive(Clone, Copy, Debug, PartialEq, Eq, Structural)]
pub struct Collidable {
    pub position: Position,
    pub collision_radius: i64,
}

/// A projectile and an enemy that touch, each by its place in the snapshot
/// that was scanned.
#[derive(Clone, Copy, Debug, PartialEq, Eq, Structural)]
pub struct Contact {
    pub projectile: usize,
    pub enemy: usize,
}

/// The squared distance between two points, at scale `ONE * ONE`.
pub open spec fn distance_squared(a: Position, b: Position) -> int {
    (a.x - b.x) * (a.x - b.x) + (a.y - b.y) * (a.y - b.y)
}

/// The sum of the two radii.
pub open spec fn reach(a: Collidable, b: Collidable) -> int {
    a.collision_radius + b.collision_radius
}

/// Two bodies touch when the distance between their centres is less than
/// the sum of their radii.
pub open spec fn touching(a: Collidable, b: Collidable) -> bool {
    reach(a, b) > 0 && distance_squared(a.position, b.position) < reach(a, b) * reach(a, b)
}

/// `contact` names a projectile and an enemy of the snapshot that touch.
pub open spec fn is_match(projectiles: Seq<Collidable>, enemies: Seq<Collidable>, contact: Contact) -> bool {
    &&& contact.projectile < projectiles.len()
    &&& contact.enemy < enemies.len()
    &&& touching(projectiles[contact.projectile as int], enemies[contact.enemy as int])
}

/// `a` comes before `b` in a scan that takes the projectiles in turn and,
/// for each, the enemies in turn.
pub open spec fn scanned_before(a: Contact, b: Contact) -> bool {
    a.projectile < b.projectile || (a.projectile == b.projectile && a.enemy < b.enemy)
}

/// `contacts` is in scan order, each contact before the next.
pub open spec fn in_scan_order(contacts: Seq<Contact>) -> bool {
    forall|k: int, l: int|
        0 <= k < l < contacts.len() ==> scanned_before(#[trigger] contacts[k], #[trigger] contacts[l])
}

/// `contacts` is the outcome of the scan: every pair that touches, once, in
/// scan order, and nothing else.
pub open spec fn is_scan(projectiles: Seq<Collidable>, enemies: Seq<Collidable>, contacts: Seq<Contact>) -> bool {
    &&& forall|k: int| 0 <= k < contacts.len() ==> is_match(projectiles, enemies, #[trigger] contacts[k])
    &&& forall|c: Contact| #[trigger] is_match(projectiles, enemies, c) ==> contacts.contains(c)
    &&& in_scan_order(contacts)
}

/// A gap along one axis that reaches the sum of the radii rules a contact
/// out, whatever the gap along the other axis.
proof fn lemma_wide_gap(gap: int, other: int, reach: int)
    requires
        reach > 0,
        gap >= reach || -gap >= reach,
    ensures
        gap * gap + other * other >= reach * reach,
{
    assert(gap * gap >= reach * reach) by (nonlinear_arith)
        requires
            reach > 0,
            gap >= reach || -gap >= reach,
    ;
    assert(other * other >= 0) by (nonlinear_arith);
}

/// Squares of magnitudes below two to the 64th fit in 128 bits.
proof fn lemma_square_fits(v: int)
    requires
        0 <= v < 0x1_0000_0000_0000_0000,
    ensures
        0 <= v * v < 0x1_0000_0000_0000_0000_0000_0000_0000_0000,
{
    assert(0 <= v * v < 0x1_0000_0000_0000_0000_0000_0000_0000_0000) by (nonlinear_arith)
        requires
            0 <= v < 0x1_0000_0000_0000_0000,
    ;
}

/// The magnitude of the difference of two coordinates.
fn gap(a: i64, b: i64) -> (r: u128)
    ensures
        r == a - b || r == b - a,
        r >= 0,
        r < 0x1_0000_0000_0000_0000,
{
    if a >= b {
        ((a as i128) - (b as i128)) as u128
    } else {
        ((b as i128) - (a as i128)) as u128
    }
}

/// Tells whether two bodies touch.
pub fn overlaps(a: &Collidable, b: &Collidable) -> (r: bool)
    ensures
        r == touching(*a, *b),
{
    let sum: i128 = (a.collision_radius as i128) + (b.collision_radius as i128);
    if sum <= 0 {
        return false;
    }
    let reach: u128 = sum as u128;
    let dx: u128 = gap(a.position.x, b.position.x);
    let dy: u128 = gap(a.position.y, b.position.y);
    proof {
        let gx = a.position.x - b.position.x;
        let gy = a.position.y - b.position.y;
        assert(dx * dx == gx * gx) by (nonlinear_arith)
            requires
                dx == gx || dx == -gx,
        ;
        assert(dy * dy == gy * gy) by (nonlinear_arith)
            requires
                dy == gy || dy == -gy,
        ;
        if dx >= reach {
            lemma_wide_gap(gx, gy, reach as int);
        }
        if dy >= reach {
            lemma_wide_gap(gy, gx, reach as int);
        }
        lemma_square_fits(reach as int);
        lemma_square_fits(dx as int);
        lemma_square_fits(dy as int);
    }
    if dx >= reach || dy >= reach {
        return false;
    }
    proof {
        assert(dy * dy < reach * reach) by (nonlinear_arith)
            requires
                0 <= dy < reach,
        ;
    }
    dx * dx < reach * reach - dy * dy
}

/// What the scan holds when it has done with the first `row` projectiles
/// and with the first `column` enemies for the projectile after them.
spec fn is_scan_so_far(
    projectiles: Seq<Collidable>,
    enemies: Seq<Collidable>,
    contacts: Seq<Contact>,
    row: int,
    column: int,
) -> bool {
    &&& forall|k: int|
        0 <= k < contacts.len() ==> is_match(projectiles, enemies, #[trigger] contacts[k]) && scanned_before(
            contacts[k],
            Contact { projectile: row as usize, enemy: column as usize },
        )
    &&& forall|c: Contact|
        #[trigger] is_match(projectiles, enemies, c) && scanned_before(
            c,
            Contact { projectile: row as usize, enemy: column as usize },
        ) ==> contacts.contains(c)
    &&& in_scan_order(contacts)
}

/// Scans every pair of a projectile and an enemy and reports those that
/// touch. A projectile that touches several enemies is reported with each
/// of them, and so is an enemy that several projectiles touch.
pub fn collision_scan(projectiles: &Vec<Collidable>, enemies: &Vec<Collidable>) -> (contacts: Vec<Contact>)
    ensures
        is_scan(projectiles@, enemies@, contacts@),
{
    let mut contacts: Vec<Contact> = Vec::new();
    let mut i: usize = 0;
    while i < projectiles.len()
        invariant
            i <= projectiles.len(),
            is_scan_so_far(projectiles@, enemies@, contacts@, i as int, 0),
        decreases projectiles.len() - i,
    {
        let mut j: usize = 0;
        while j < enemies.len()
            invariant
                i < projectiles.len(),
                j <= enemies.len(),
                is_scan_so_far(projectiles@, enemies@, contacts@, i as int, j as int),
            decreases enemies.len() - j,
        {
            let ghost before = contacts@;
            if overlaps(&projectiles[i], &enemies[j]) {
                let found = Contact { projectile: i, enemy: j };
                contacts.push(found);
                proof {
                    assert(contacts@[before.len() as int] == found);
                    assert forall|c: Contact|
                        #[trigger] is_match(projectiles@, enemies@, c) && scanned_before(
                            c,
                            Contact { projectile: i, enemy: (j + 1) as usize },
                        ) implies contacts@.contains(c) by {
                        if scanned_before(c, found) {
                            let k = choose|k: int| 0 <= k < before.len() && before[k] == c;
                            assert(contacts@[k] == c);
                        } else {
                            assert(c == found);
                        }
                    }
                }
            } else {
                proof {
                    assert forall|c: Contact|
                        #[trigger] is_match(projectiles@, enemies@, c) && scanned_before(
                            c,
                            Contact { projectile: i, enemy: (j + 1) as usize },
                        ) implies contacts@.contains(c) by {
                        assert(scanned_before(c, Contact { projectile: i, enemy: j }));
                    }
                }
            }
            j += 1;
        }
        proof {
            assert forall|c: Contact|
                #[trigger] is_match(projectiles@, enemies@, c) && scanned_before(
                    c,
                    Contact { projectile: (i + 1) as usize, enemy: 0 },
                ) implies contacts@.contains(c) by {
                assert(scanned_before(c, Contact { projectile: i, enemy: j }));
            }
        }
        i += 1;
    }
    proof {
        assert forall|c: Contact| #[trigger] is_match(projectiles@, enemies@, c) implies contacts@.contains(c) by {
            assert(scanned_before(c, Contact { projectile: i, enemy: 0 }));
        }
    }
    contacts
}

/// The contact with the two roles exchanged.
pub open spec fn exchanged(contact: Contact) -> Contact {
    Contact { projectile: contact.enemy, enemy: contact.projectile }
}

/// Collision symmetry of the test: whether two bodies touch does not depend
/// on which of them is taken first.
pub proof fn lemma_touching_is_symmetric(a: Collidable, b: Collidable)
    ensures
        touching(a, b) == touching(b, a),
{
    let dx = a.position.x - b.position.x;
    let dy = a.position.y - b.position.y;
    assert((-dx) * (-dx) == dx * dx) by (nonlinear_arith);
    assert((-dy) * (-dy) == dy * dy) by (nonlinear_arith);
    assert(b.position.x - a.position.x == -dx);
    assert(b.position.y - a.position.y == -dy);
}

/// Collision symmetry of the scan: a scan with the projectiles and the
/// enemies in each other's place finds the same pairs.
pub proof fn lemma_scan_roles_exchange(
    projectiles: Seq<Collidable>,
    enemies: Seq<Collidable>,
    contacts: Seq<Contact>,
    exchanged_contacts: Seq<Contact>,
)
    requires
        is_scan(projectiles, enemies, contacts),
        is_scan(enemies, projectiles, exchanged_contacts),
    ensures
        forall|c: Contact| contacts.contains(c) <==> exchanged_contacts.contains(exchanged(c)),
{
    assert forall|c: Contact| contacts.contains(c) <==> exchanged_contacts.contains(exchanged(c)) by {
        if contacts.contains(c) {
            let k = choose|k: int| 0 <= k < contacts.len() && contacts[k] == c;
            assert(is_match(projectiles, enemies, contacts[k]));
            lemma_touching_is_symmetric(projectiles[c.projectile as int], enemies[c.enemy as int]);
            assert(is_match(enemies, projectiles, exchanged(c)));
        }
        if exchanged_contacts.contains(exchanged(c)) {
            let k = choose|k: int| 0 <= k < exchanged_contacts.len() && exchanged_contacts[k] == exchanged(c);
            assert(is_match(enemies, projectiles, exchanged_contacts[k]));
            lemma_touching_is_symmetric(projectiles[c.projectile as int], enemies[c.enemy as int]);
            assert(is_match(projectiles, enemies, c));
        }
    }
}

/// Two sequences in scan order that hold the same contacts are equal.
proof fn lemma_scan_order_is_canonical(a: Seq<Contact>, b: Seq<Contact>)
    requires
        in_scan_order(a),
        in_scan_order(b),
        forall|c: Contact| a.contains(c) <==> b.contains(c),
    ensures
        a == b,
    decreases a.len(),
{
    if a.len() == 0 {
        if b.len() > 0 {
            assert(b.contains(b[0]));
            assert(a.contains(b[0]));
        }
        assert(a =~= b);
    } else {
        let last_a = a.last();
        assert(a.contains(last_a));
        let kb = choose|k: int| 0 <= k < b.len() && b[k] == last_a;
        let last_b = b.last();
        assert(b.contains(last_b));
        let ka = choose|k: int| 0 <= k < a.len() && a[k] == last_b;
        if ka < a.len() - 1 {
            assert(scanned_before(a[ka], a[a.len() - 1]));
            if kb < b.len() - 1 {
                assert(scanned_before(b[kb], b[b.len() - 1]));
            }
        }
        assert(last_a == last_b);
        let shorter_a = a.drop_last();
        let shorter_b = b.drop_last();
        assert forall|c: Contact| shorter_a.contains(c) <==> shorter_b.contains(c) by {
            if shorter_a.contains(c) {
                let k = choose|k: int| 0 <= k < shorter_a.len() && shorter_a[k] == c;
                assert(a[k] == c);
                assert(scanned_before(a[k], a[a.len() - 1]));
                assert(a.contains(c));
                let m = choose|m: int| 0 <= m < b.len() && b[m] == c;
                assert(m < b.len() - 1);
                assert(shorter_b[m] == c);
            }
            if shorter_b.contains(c) {
                let k = choose|k: int| 0 <= k < shorter_b.len() && shorter_b[k] == c;
                assert(b[k] == c);
                assert(scanned_before(b[k], b[b.len() - 1]));
                assert(b.contains(c));
                let m = choose|m: int| 0 <= m < a.len() && a[m] == c;
                assert(m < a.len() - 1);
                assert(shorter_a[m] == c);
            }
        }
        lemma_scan_order_is_canonical(shorter_a, shorter_b);
        assert(a =~= shorter_a.push(last_a));
        assert(b =~= shorter_b.push(last_b));
    }
}

/// The scan has one outcome: two sequences that both are the outcome of the
/// scan of one snapshot are equal.
pub proof fn lemma_scan_is_unique(
    projectiles: Seq<Collidable>,
    enemies: Seq<Collidable>,
    one: Seq<Contact>,
    other: Seq<Contact>,
)
    requires
        is_scan(projectiles, enemies, one),
        is_scan(projectiles, enemies, other),
    ensures
        one == other,
{
    assert forall|c: Contact| one.contains(c) <==> other.contains(c) by {
        if one.contains(c) {
            let k = choose|k: int| 0 <= k < one.len() && one[k] == c;
            assert(is_match(projectiles, enemies, one[k]));
        }
        if other.contains(c) {
            let k = choose|k: int| 0 <= k < other.len() && other[k] == c;
            assert(is_match(projectiles, enemies, other[k]));
        }
    }
    lemma_scan_order_is_canonical(one, other);
}

} // verus!
