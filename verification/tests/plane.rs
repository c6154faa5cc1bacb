use my_game::fixed::ONE;
use my_game::plane::{canonical_forward, dot_product, has_unit_length, right_dot_product, Direction};

fn direction(x: f64, y: f64) -> Direction {
    Direction { x: (x * ONE as f64).round() as i32, y: (y * ONE as f64).round() as i32 }
}

#[test]
fn canonical_forward_points_up() {
    assert_eq!(canonical_forward(), Direction { x: 0, y: 8_388_608 });
    assert!(has_unit_length(canonical_forward()));
}

#[test]
fn dot_product_of_axes() {
    let up = Direction { x: 0, y: 8_388_608 };
    let right = Direction { x: 8_388_608, y: 0 };
    assert_eq!(dot_product(up, up), 70_368_744_177_664);
    assert_eq!(dot_product(up, right), 0);
    assert_eq!(dot_product(up, Direction { x: 0, y: -8_388_608 }), -70_368_744_177_664);
    assert_eq!(dot_product(Direction { x: 3, y: 4 }, Direction { x: 5, y: -6 }), -9);
}

#[test]
fn dot_product_at_the_ends_of_the_range() {
    let least = Direction { x: i32::MIN, y: i32::MIN };
    assert_eq!(dot_product(least, least), 1i128 << 63);
    let most = Direction { x: i32::MAX, y: i32::MAX };
    assert_eq!(dot_product(least, most), 2 * (i32::MIN as i128) * (i32::MAX as i128));
}

#[test]
fn right_vector_is_forward_turned_clockwise() {
    let up = Direction { x: 0, y: 8_388_608 };
    let right = Direction { x: 8_388_608, y: 0 };
    let left = Direction { x: -8_388_608, y: 0 };
    let down = Direction { x: 0, y: -8_388_608 };
    // facing up, the right vector is +X
    assert_eq!(right_dot_product(up, right), 70_368_744_177_664);
    assert_eq!(right_dot_product(up, left), -70_368_744_177_664);
    assert_eq!(right_dot_product(up, up), 0);
    assert_eq!(right_dot_product(up, down), 0);
    // facing right, the right vector is -Y
    assert_eq!(right_dot_product(right, down), 70_368_744_177_664);
    assert_eq!(right_dot_product(right, up), -70_368_744_177_664);
    assert_eq!(right_dot_product(Direction { x: 3, y: 4 }, Direction { x: 5, y: -6 }), 38);
}

#[test]
fn right_dot_product_at_the_ends_of_the_range() {
    let forward = Direction { x: i32::MIN, y: i32::MAX };
    let target = Direction { x: i32::MAX, y: i32::MAX };
    let expected = (i32::MAX as i128) * (i32::MAX as i128) - (i32::MIN as i128) * (i32::MAX as i128);
    assert_eq!(right_dot_product(forward, target), expected);
}

#[test]
fn rounded_unit_vectors_have_unit_length() {
    let mut degrees = 0;
    while degrees < 360 {
        let angle = (degrees as f64).to_radians();
        assert!(has_unit_length(direction(angle.cos(), angle.sin())), "{}", degrees);
        degrees += 1;
    }
    assert!(has_unit_length(Direction { x: 5_931_642, y: 5_931_642 }));
}

#[test]
fn other_vectors_do_not_have_unit_length() {
    assert!(!has_unit_length(Direction { x: 0, y: 0 }));
    assert!(!has_unit_length(Direction { x: 8_388_608, y: 8_388_608 }));
    assert!(!has_unit_length(Direction { x: 0, y: 8_388_608 + 2 }));
    assert!(!has_unit_length(Direction { x: 0, y: 8_388_608 - 2 }));
    assert!(!has_unit_length(Direction { x: 0, y: 8_388_608 + 1 }));
    assert!(has_unit_length(Direction { x: 0, y: 8_388_608 - 1 }));
    assert!(!has_unit_length(Direction { x: i32::MIN, y: i32::MAX }));
}
