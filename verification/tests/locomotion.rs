use my_game::clock::TIME_STEP;
use my_game::fixed::ONE;
use my_game::locomotion::{advance, translate};
use my_game::plane::{Direction, KinematicState, Position};

const UP: Direction = Direction { x: 0, y: 8_388_608 };
const DIAGONAL: Direction = Direction { x: 5_931_642, y: 5_931_642 };

fn units(v: i64) -> f64 {
    v as f64 / ONE as f64
}

#[test]
fn one_tick_covers_speed_times_dt() {
    // 200 units per second for a sixtieth of a second, along +Y
    let state = KinematicState { position: Position { x: 0, y: 0 }, forward: UP };
    let next = advance(&state, 200 * ONE, TIME_STEP);
    assert_eq!(next.position, Position { x: 0, y: 27_962_000 });
    assert_eq!(next.forward, UP);
    assert!((units(next.position.y) - 200.0 / 60.0).abs() < 1e-5);
}

#[test]
fn sixty_ticks_cover_one_second_of_motion() {
    let mut state = KinematicState { position: Position { x: 0, y: 0 }, forward: UP };
    for tick in 1..=60 {
        state = advance(&state, 200 * ONE, TIME_STEP);
        assert_eq!(state.position.y, tick * 27_962_000);
        assert_eq!(state.position.x, 0);
    }
    assert_eq!(state.position.y, 1_677_720_000);
    assert!((units(state.position.y) - 200.0).abs() < 1e-3);
}

#[test]
fn motion_is_linear_along_any_direction() {
    let start = Position { x: -3 * ONE, y: 7 * ONE };
    let mut state = KinematicState { position: start, forward: DIAGONAL };
    for tick in 1..=100 {
        state = advance(&state, 200 * ONE, TIME_STEP);
        assert_eq!(state.position.x, start.x + tick * 19_772_121);
        assert_eq!(state.position.y, start.y + tick * 19_772_121);
    }
    let dx = units(state.position.x - start.x);
    let dy = units(state.position.y - start.y);
    assert!(((dx * dx + dy * dy).sqrt() - 100.0 * 200.0 / 60.0).abs() < 1e-2);
}

#[test]
fn opposite_directions_give_opposite_shifts() {
    let origin = Position { x: 0, y: 0 };
    let there = translate(origin, DIAGONAL, 27_962_000);
    let back = translate(origin, Direction { x: -5_931_642, y: -5_931_642 }, 27_962_000);
    assert_eq!(there, Position { x: 19_772_121, y: 19_772_121 });
    assert_eq!(back, Position { x: -19_772_121, y: -19_772_121 });
    assert_eq!(translate(origin, DIAGONAL, -27_962_000), back);
}

#[test]
fn translate_by_nothing_stays() {
    let position = Position { x: 123, y: -456 };
    assert_eq!(translate(position, DIAGONAL, 0), position);
    assert_eq!(translate(position, Direction { x: 0, y: 0 }, i64::MAX), position);
}

#[test]
fn standing_speed_does_not_move() {
    let state = KinematicState { position: Position { x: 5, y: 6 }, forward: UP };
    assert_eq!(advance(&state, 0, TIME_STEP), state);
    assert_eq!(advance(&state, 200 * ONE, 0), state);
}

#[test]
fn position_saturates_at_the_ends_of_the_range() {
    let state = KinematicState { position: Position { x: 17, y: i64::MAX - 5 }, forward: UP };
    let next = advance(&state, 200 * ONE, TIME_STEP);
    assert_eq!(next.position, Position { x: 17, y: i64::MAX });
    let down = Direction { x: 0, y: -8_388_608 };
    let state = KinematicState { position: Position { x: 17, y: i64::MIN + 5 }, forward: down };
    let next = advance(&state, 200 * ONE, TIME_STEP);
    assert_eq!(next.position, Position { x: 17, y: i64::MIN });
    let far = translate(Position { x: i64::MIN, y: i64::MAX }, Direction { x: i32::MIN, y: i32::MAX }, i64::MAX);
    assert_eq!(far, Position { x: i64::MIN, y: i64::MAX });
}

#[test]
fn distance_saturates_before_the_shift() {
    // the distance of one tick is itself a scalar
    let state = KinematicState { position: Position { x: 0, y: 0 }, forward: Direction { x: 0, y: 1 } };
    let next = advance(&state, i64::MAX, i64::MAX);
    assert_eq!(next.position, Position { x: 0, y: i64::MAX / ONE });
}
