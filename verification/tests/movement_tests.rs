use bomberman::components::{Direction, Velocity};
use bomberman::geometry::Pos;
use bomberman::movement::{
    DirectionalInput, PlayerMotion, change_direction, get_velocity_vec, move_or_turn,
    player_movement,
};

#[test]
fn velocity_vectors_point_along_each_direction() {
    assert_eq!(get_velocity_vec(&Direction::Left, 2), Pos { x: -2, y: 0 });
    assert_eq!(get_velocity_vec(&Direction::Up, 2), Pos { x: 0, y: 2 });
    assert_eq!(get_velocity_vec(&Direction::Right, 2), Pos { x: 2, y: 0 });
    assert_eq!(get_velocity_vec(&Direction::Down, 2), Pos { x: 0, y: -2 });
}

#[test]
fn clear_path_steps_straight() {
    let walls: Vec<Pos> = vec![Pos { x: 480, y: 480 }];
    let r = move_or_turn(&Pos { x: 0, y: 0 }, &Direction::Right, &walls);
    assert_eq!(r, Some(Pos { x: 2, y: 0 }));
}

#[test]
fn blocked_path_with_free_side_turns_ninety_degrees() {
    // Moving right into a wall level with the entity: the tie goes down.
    let walls: Vec<Pos> = vec![Pos { x: 44, y: 0 }];
    let r = move_or_turn(&Pos { x: 0, y: 0 }, &Direction::Right, &walls);
    assert_eq!(r, Some(Pos { x: 0, y: -2 }));
}

#[test]
fn corner_assist_picks_the_nearer_side() {
    // The entity sits above the wall's center line, so it is shunted up,
    // never toward the farther (lower) side.
    let walls: Vec<Pos> = vec![Pos { x: 44, y: 0 }];
    let r = move_or_turn(&Pos { x: 0, y: 12 }, &Direction::Right, &walls);
    assert_eq!(r, Some(Pos { x: 0, y: 14 }));
}

#[test]
fn blocked_waypoints_stop_the_entity() {
    // The chosen (lower) side's waypoint is covered: no move at all.
    let walls: Vec<Pos> = vec![Pos { x: 44, y: 0 }, Pos { x: 0, y: -48 }];
    let r = move_or_turn(&Pos { x: 0, y: 0 }, &Direction::Right, &walls);
    assert_eq!(r, None);
}

#[test]
fn committed_positions_never_enter_walls() {
    // Walk an entity right along a corridor below a wall row for many
    // ticks; whatever the resolver commits never overlaps a wall.
    let mut walls: Vec<Pos> = Vec::new();
    let mut c = 0;
    while c < 13 {
        walls.push(Pos { x: 48 * c, y: 48 });
        walls.push(Pos { x: 48 * c, y: -48 });
        c += 1;
    }
    walls.push(Pos { x: 480, y: 0 });
    let mut pos = Pos { x: 0, y: 0 };
    for _ in 0..400 {
        if let Some(np) = move_or_turn(&pos, &Direction::Right, &walls) {
            pos = np;
        }
        for w in walls.iter() {
            assert!(!bomberman::geometry::vecs_xy_intersect(&pos, w));
        }
    }
}

#[test]
fn input_priority_is_left_down_up_right() {
    let mut d = Direction::Up;
    let mut v = Velocity { current: 0, max: 150 };
    let all = DirectionalInput { left: true, down: true, up: true, right: true };
    change_direction(&all, &mut d, &mut v);
    assert_eq!(d, Direction::Left);
    assert_eq!(v.current, 150);

    let down_right = DirectionalInput { left: false, down: true, up: false, right: true };
    change_direction(&down_right, &mut d, &mut v);
    assert_eq!(d, Direction::Down);

    let none = DirectionalInput { left: false, down: false, up: false, right: false };
    change_direction(&none, &mut d, &mut v);
    assert_eq!(d, Direction::Down);
    assert_eq!(v.current, 0);
    assert_eq!(v.max, 150);
}

#[test]
fn idle_entities_do_not_move() {
    let walls: Vec<Pos> = Vec::new();
    let mut players = vec![
        PlayerMotion {
            position: Pos { x: 0, y: 0 },
            direction: Direction::Right,
            velocity: Velocity { current: 0, max: 150 },
        },
        PlayerMotion {
            position: Pos { x: 100, y: 0 },
            direction: Direction::Up,
            velocity: Velocity { current: 150, max: 150 },
        },
    ];
    player_movement(&mut players, &walls);
    assert_eq!(players[0].position, Pos { x: 0, y: 0 });
    assert_eq!(players[1].position, Pos { x: 100, y: 2 });
}

#[test]
fn all_four_directions_step_or_turn() {
    let walls: Vec<Pos> = vec![Pos { x: 480, y: 480 }];
    assert_eq!(
        move_or_turn(&Pos { x: 0, y: 0 }, &Direction::Left, &walls),
        Some(Pos { x: -2, y: 0 })
    );
    assert_eq!(
        move_or_turn(&Pos { x: 0, y: 0 }, &Direction::Down, &walls),
        Some(Pos { x: 0, y: -2 })
    );
    // Moving up into a wall with the entity left of its center: turn left.
    let blockers: Vec<Pos> = vec![Pos { x: 0, y: 44 }];
    assert_eq!(
        move_or_turn(&Pos { x: -12, y: 0 }, &Direction::Up, &blockers),
        Some(Pos { x: -14, y: 0 })
    );
    // And right of its center: turn right.
    assert_eq!(
        move_or_turn(&Pos { x: 12, y: 0 }, &Direction::Up, &blockers),
        Some(Pos { x: 14, y: 0 })
    );
}

#[test]
fn random_layouts_never_let_an_entity_enter_a_wall() {
    // Containment, probed over random wall layouts and direction
    // sequences: whatever the resolver commits never overlaps a wall.
    let mut rng = rand::thread_rng();
    for _round in 0..60 {
        let mut walls: Vec<Pos> = Vec::new();
        let n_walls = rand::Rng::gen_range(&mut rng, 3..25);
        for _ in 0..n_walls {
            let wx: i32 = rand::Rng::gen_range(&mut rng, -4..5) * 48;
            let wy: i32 = rand::Rng::gen_range(&mut rng, -4..5) * 48;
            // Keep the start cell clear so the entity begins outside walls.
            if wx.abs() >= 48 || wy.abs() >= 48 {
                walls.push(Pos { x: wx, y: wy });
            }
        }
        let mut pos = Pos { x: 0, y: 0 };
        for _step in 0..200 {
            let dir = match rand::Rng::gen_range(&mut rng, 0..4) {
                0 => Direction::Left,
                1 => Direction::Up,
                2 => Direction::Right,
                _ => Direction::Down,
            };
            if let Some(np) = move_or_turn(&pos, &dir, &walls) {
                pos = np;
            }
            for w in walls.iter() {
                assert!(!bomberman::geometry::vecs_xy_intersect(&pos, w));
            }
        }
    }
}
