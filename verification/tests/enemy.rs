use my_game::clock::TIME_STEP;
use my_game::collision::Contact;
use my_game::enemy::{
    collision_system, move_forward_system, rotate_to_player_system, snap_to_player_system, spawn_enemies_system,
    Enemy, EnemyBundle, EnemyMovementSpeed, EnemyRotationSpeed, SnapToPlayer,
};
use my_game::fixed::{HALF_TURN, ONE};
use my_game::plane::{Direction, KinematicState, Position};
use my_game::projectile::{projectile_movement_system, Projectile};
use my_game::steering::Bearing;

const UP: Direction = Direction { x: 0, y: 8_388_608 };
const DOWN: Direction = Direction { x: 0, y: -8_388_608 };
const RIGHT: Direction = Direction { x: 8_388_608, y: 0 };
const LEFT: Direction = Direction { x: -8_388_608, y: 0 };
const QUARTER_TURN: i64 = 13_176_794;

fn state(x: i64, y: i64, forward: Direction) -> KinematicState {
    KinematicState { position: Position { x: x * ONE, y: y * ONE }, forward }
}

#[test]
fn collision_system_reports_projectile_and_enemy() {
    let shot = Projectile { movement_speed: 1000 * ONE, collision_radius: 32 * ONE };
    let enemy = Enemy { collision_radius: 16 * ONE };
    let projectiles = vec![(shot, state(0, 0, UP)), (shot, state(0, 200, UP))];
    let enemies = vec![(enemy, state(49, 0, DOWN)), (enemy, state(47, 0, DOWN)), (enemy, state(10, 230, LEFT))];
    assert_eq!(
        collision_system(&projectiles, &enemies),
        vec![Contact { projectile: 0, enemy: 1 }, Contact { projectile: 1, enemy: 2 }]
    );
}

#[test]
fn collision_system_reads_each_radius() {
    let small = Projectile { movement_speed: 0, collision_radius: ONE };
    let large = Projectile { movement_speed: 0, collision_radius: 40 * ONE };
    let enemy = Enemy { collision_radius: 16 * ONE };
    let enemies = vec![(enemy, state(30, 0, UP))];
    assert_eq!(collision_system(&vec![(small, state(0, 0, UP))], &enemies), vec![]);
    assert_eq!(collision_system(&vec![(large, state(0, 0, UP))], &enemies), vec![Contact { projectile: 0, enemy: 0 }]);
    let wide = vec![(Enemy { collision_radius: 30 * ONE }, state(30, 0, UP))];
    assert_eq!(collision_system(&vec![(small, state(0, 0, UP))], &wide), vec![Contact { projectile: 0, enemy: 0 }]);
}

#[test]
fn collision_follows_locomotion_within_a_tick() {
    // a projectile that reaches the enemy in this tick collides in this tick
    let shot = Projectile { movement_speed: 1000 * ONE, collision_radius: 32 * ONE };
    let enemy = Enemy { collision_radius: 16 * ONE };
    let mut projectiles = vec![(shot, state(0, 0, UP))];
    let enemies = vec![(enemy, state(0, 64, DOWN))];
    assert_eq!(collision_system(&projectiles, &enemies), vec![]);
    projectile_movement_system(&mut projectiles, TIME_STEP);
    assert_eq!(projectiles[0].1.position, Position { x: 0, y: 139_810_000 });
    assert_eq!(collision_system(&projectiles, &enemies), vec![Contact { projectile: 0, enemy: 0 }]);
}

#[test]
fn snap_system_turns_every_enemy_but_the_coincident() {
    let player = Position { x: 4 * ONE, y: 6 * ONE };
    let toward = Direction { x: 5_033_165, y: 6_710_886 };
    let mut enemies = vec![state(1, 2, UP), state(4, 6, LEFT), state(4, 7, LEFT), state(-96, 6, UP)];
    snap_to_player_system(&mut enemies, player);
    assert_eq!(enemies, vec![state(1, 2, toward), state(4, 6, LEFT), state(4, 7, DOWN), state(-96, 6, RIGHT)]);
}

#[test]
fn rotate_system_decides_a_turn_for_every_enemy() {
    let player = Position { x: 0, y: 0 };
    let enemies = vec![
        // player to the right: clockwise by the budget
        (EnemyRotationSpeed(QUARTER_TURN), state(-10, 0, UP), Bearing { angle: QUARTER_TURN }),
        // player to the left: counter-clockwise by the budget
        (EnemyRotationSpeed(HALF_TURN), state(10, 0, UP), Bearing { angle: QUARTER_TURN }),
        // nearly there: by the angle that is left
        (EnemyRotationSpeed(HALF_TURN), state(10, 0, Direction { x: -8_388_607, y: 4_096 }), Bearing { angle: 4_096 }),
        // facing the player
        (EnemyRotationSpeed(HALF_TURN), state(0, -10, UP), Bearing { angle: 0 }),
        // on the player
        (EnemyRotationSpeed(HALF_TURN), state(0, 0, UP), Bearing { angle: QUARTER_TURN }),
    ];
    assert_eq!(rotate_to_player_system(player, &enemies, TIME_STEP), vec![-219_613, 439_226, 4_096, 0, 0]);
    assert_eq!(rotate_to_player_system(player, &vec![], TIME_STEP), vec![]);
}

#[test]
fn move_forward_system_moves_every_enemy_by_its_own_speed() {
    let mut enemies = vec![
        (EnemyMovementSpeed(200 * ONE), state(0, 0, UP)),
        (EnemyMovementSpeed(1000 * ONE), state(5, 5, LEFT)),
        (EnemyMovementSpeed(0), state(-5, 9, DOWN)),
    ];
    move_forward_system(&mut enemies, TIME_STEP);
    assert_eq!(enemies[0], (EnemyMovementSpeed(200 * ONE), KinematicState { position: Position { x: 0, y: 27_962_000 }, forward: UP }));
    assert_eq!(
        enemies[1],
        (EnemyMovementSpeed(1000 * ONE), KinematicState { position: Position { x: 5 * ONE - 139_810_000, y: 5 * ONE }, forward: LEFT })
    );
    assert_eq!(enemies[2], (EnemyMovementSpeed(0), state(-5, 9, DOWN)));
}

#[test]
fn move_forward_system_does_not_depend_on_the_order() {
    let a = (EnemyMovementSpeed(200 * ONE), state(0, 0, UP));
    let b = (EnemyMovementSpeed(300 * ONE), state(5, 5, RIGHT));
    let mut forth = vec![a, b];
    let mut back = vec![b, a];
    move_forward_system(&mut forth, TIME_STEP);
    move_forward_system(&mut back, TIME_STEP);
    assert_eq!(forth[0], back[1]);
    assert_eq!(forth[1], back[0]);
}

#[test]
fn projectile_system_moves_every_projectile() {
    let shot = Projectile { movement_speed: 1000 * ONE, collision_radius: 32 * ONE };
    let slow = Projectile { movement_speed: 200 * ONE, collision_radius: 32 * ONE };
    let mut projectiles = vec![(shot, state(0, 0, RIGHT)), (slow, state(0, 0, DOWN))];
    projectile_movement_system(&mut projectiles, TIME_STEP);
    assert_eq!(projectiles[0], (shot, KinematicState { position: Position { x: 139_810_000, y: 0 }, forward: RIGHT }));
    assert_eq!(projectiles[1], (slow, KinematicState { position: Position { x: 0, y: -27_962_000 }, forward: DOWN }));
    let mut none: Vec<(Projectile, KinematicState)> = vec![];
    projectile_movement_system(&mut none, TIME_STEP);
    assert!(none.is_empty());
}

#[test]
fn enemies_arrive_in_even_seconds() {
    let wave = vec![
        EnemyBundle::Pursuer {
            movement_speed: EnemyMovementSpeed(200 * ONE),
            rotation_speed: EnemyRotationSpeed(HALF_TURN),
            enemy: Enemy { collision_radius: 32 * ONE },
        },
        EnemyBundle::Snapper {
            movement_speed: EnemyMovementSpeed(200 * ONE),
            snap_to_player: SnapToPlayer,
            enemy: Enemy { collision_radius: 32 * ONE },
        },
    ];
    assert_eq!(spawn_enemies_system(0), wave);
    assert_eq!(spawn_enemies_system(2), wave);
    assert_eq!(spawn_enemies_system(u64::MAX - 1), wave);
}

#[test]
fn no_enemies_arrive_in_odd_seconds() {
    assert_eq!(spawn_enemies_system(1), vec![]);
    assert_eq!(spawn_enemies_system(3), vec![]);
    assert_eq!(spawn_enemies_system(u64::MAX), vec![]);
}
