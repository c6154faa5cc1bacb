use my_game::collision::{collision_scan, overlaps, Collidable, Contact};
use my_game::fixed::ONE;
use my_game::plane::Position;

fn body(x: i64, y: i64, radius: i64) -> Collidable {
    Collidable { position: Position { x: x * ONE, y: y * ONE }, collision_radius: radius * ONE }
}

fn contact(projectile: usize, enemy: usize) -> Contact {
    Contact { projectile, enemy }
}

#[test]
fn centers_closer_than_the_radii_collide() {
    // radii 32 and 16, centres 47 apart
    assert!(overlaps(&body(0, 0, 32), &body(47, 0, 16)));
    assert_eq!(collision_scan(&vec![body(0, 0, 32)], &vec![body(47, 0, 16)]), vec![contact(0, 0)]);
}

#[test]
fn centers_farther_than_the_radii_do_not_collide() {
    // radii 32 and 16, centres 49 apart
    assert!(!overlaps(&body(0, 0, 32), &body(49, 0, 16)));
    assert_eq!(collision_scan(&vec![body(0, 0, 32)], &vec![body(49, 0, 16)]), vec![]);
}

#[test]
fn centers_exactly_the_radii_apart_do_not_collide() {
    assert!(!overlaps(&body(0, 0, 32), &body(48, 0, 16)));
    assert!(!overlaps(&body(0, 0, 32), &body(0, -48, 16)));
    let mut nearer = body(48, 0, 16);
    nearer.position.x -= 1;
    assert!(overlaps(&body(0, 0, 32), &nearer));
    // a 3-4-5 triangle: 30 and 40 apart is 50 apart
    assert!(!overlaps(&body(10, 10, 25), &body(40, 50, 25)));
    assert!(overlaps(&body(10, 10, 25), &body(40, 49, 25)));
}

#[test]
fn overlap_does_not_depend_on_the_order() {
    let bodies = [
        body(0, 0, 32),
        body(47, 0, 16),
        body(49, 0, 16),
        body(-20, 35, 8),
        body(-20, 36, 0),
        body(1000, -1000, 1400),
        Collidable { position: Position { x: i64::MIN, y: i64::MAX }, collision_radius: i64::MAX },
        Collidable { position: Position { x: i64::MAX, y: i64::MIN }, collision_radius: 1 },
    ];
    for a in &bodies {
        for b in &bodies {
            assert_eq!(overlaps(a, b), overlaps(b, a));
        }
    }
}

#[test]
fn scan_with_the_roles_exchanged_finds_the_same_pairs() {
    let projectiles = vec![body(0, 0, 32), body(100, 100, 32), body(500, 0, 1)];
    let enemies = vec![body(47, 0, 16), body(49, 0, 16), body(90, 90, 16), body(20, 20, 16)];
    let found = collision_scan(&projectiles, &enemies);
    let exchanged = collision_scan(&enemies, &projectiles);
    assert_eq!(found, vec![contact(0, 0), contact(0, 3), contact(1, 2)]);
    assert_eq!(exchanged, vec![contact(0, 0), contact(2, 1), contact(3, 0)]);
    assert_eq!(found.len(), exchanged.len());
    for c in &found {
        assert!(exchanged.contains(&contact(c.enemy, c.projectile)));
    }
    for c in &exchanged {
        assert!(found.contains(&contact(c.enemy, c.projectile)));
    }
}

#[test]
fn every_matched_pair_is_reported() {
    // one projectile that touches three enemies, and one enemy that two projectiles touch
    let projectiles = vec![body(0, 0, 10), body(0, 5, 10)];
    let enemies = vec![body(5, 0, 10), body(-5, 0, 10), body(0, -5, 10), body(300, 300, 10)];
    assert_eq!(
        collision_scan(&projectiles, &enemies),
        vec![contact(0, 0), contact(0, 1), contact(0, 2), contact(1, 0), contact(1, 1), contact(1, 2)]
    );
}

#[test]
fn empty_snapshots_have_no_contacts() {
    assert_eq!(collision_scan(&vec![], &vec![]), vec![]);
    assert_eq!(collision_scan(&vec![body(0, 0, 10)], &vec![]), vec![]);
    assert_eq!(collision_scan(&vec![], &vec![body(0, 0, 10)]), vec![]);
}

#[test]
fn radii_that_sum_to_nothing_never_collide() {
    assert!(!overlaps(&body(0, 0, 0), &body(0, 0, 0)));
    assert!(!overlaps(&body(0, 0, -5), &body(0, 0, 5)));
    assert!(!overlaps(&body(0, 0, -5), &body(0, 0, 3)));
    assert!(overlaps(&body(0, 0, -5), &body(0, 0, 6)));
    let least = Collidable { position: Position { x: 0, y: 0 }, collision_radius: i64::MIN };
    assert!(!overlaps(&least, &least));
}

#[test]
fn overlap_at_the_ends_of_the_range() {
    let corner = Collidable { position: Position { x: i64::MIN, y: i64::MIN }, collision_radius: i64::MAX };
    let opposite = Collidable { position: Position { x: i64::MAX, y: i64::MAX }, collision_radius: i64::MAX };
    // 2^64 - 1 apart on both axes, radii 2^64 - 2 together
    assert!(!overlaps(&corner, &opposite));
    let beside = Collidable { position: Position { x: i64::MAX, y: i64::MIN }, collision_radius: i64::MAX };
    assert!(!overlaps(&corner, &beside));
    let nearer = Collidable { position: Position { x: i64::MAX - 2, y: i64::MIN }, collision_radius: i64::MAX };
    assert!(overlaps(&corner, &nearer));
    let diagonal = Collidable { position: Position { x: 0, y: 0 }, collision_radius: i64::MAX };
    // 2^63 apart on both axes: 2^63.5 apart, within 2^64 - 2
    assert!(overlaps(&corner, &diagonal));
    assert!(overlaps(&corner, &corner));
}
