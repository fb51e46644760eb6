use bomberman::components::{Direction, Velocity};
use bomberman::creatures::{
    BUMP_TURN_PROBABILITY, ContactAction, ContactKind, TURN_PROBABILITY, creature_bump_turn,
    creature_movement, creature_turn, direction_from_index, handle_contact, new_rng,
    random_direction,
};
use bomberman::components::{Animation, CountdownTimer, Stop};
use bomberman::creatures::{DyingPlayer, StopAndFlashing, despawn_player};
use bomberman::game::{CreatureEntity, PlayerEntity};
use bomberman::geometry::Pos;

#[test]
fn low_rolls_turn_and_high_rolls_keep_going() {
    assert_eq!(TURN_PROBABILITY, 2);
    assert_eq!(
        creature_turn(Direction::Right, 0, TURN_PROBABILITY, Direction::Up),
        Direction::Up
    );
    assert_eq!(
        creature_turn(Direction::Right, 1, TURN_PROBABILITY, Direction::Up),
        Direction::Up
    );
    assert_eq!(
        creature_turn(Direction::Right, 2, TURN_PROBABILITY, Direction::Up),
        Direction::Right
    );
    assert_eq!(
        creature_turn(Direction::Right, 100, TURN_PROBABILITY, Direction::Up),
        Direction::Right
    );
    assert_eq!(BUMP_TURN_PROBABILITY, 50);
}

#[test]
fn each_draw_index_names_one_direction() {
    assert_eq!(direction_from_index(0), Direction::Left);
    assert_eq!(direction_from_index(1), Direction::Up);
    assert_eq!(direction_from_index(2), Direction::Right);
    assert_eq!(direction_from_index(3), Direction::Down);
}

#[test]
fn contacts_dispatch_by_the_two_sides() {
    assert_eq!(
        handle_contact(ContactKind::PlayerSide, ContactKind::CreatureSide),
        ContactAction::PlayerDies
    );
    assert_eq!(
        handle_contact(ContactKind::CreatureSide, ContactKind::PlayerSide),
        ContactAction::PlayerDies
    );
    assert_eq!(
        handle_contact(ContactKind::CreatureSide, ContactKind::WallSide),
        ContactAction::CreatureMayTurn
    );
    assert_eq!(
        handle_contact(ContactKind::WallSide, ContactKind::CreatureSide),
        ContactAction::OtherCreatureMayTurn
    );
    assert_eq!(
        handle_contact(ContactKind::PlayerSide, ContactKind::WallSide),
        ContactAction::Ignore
    );
    assert_eq!(
        handle_contact(ContactKind::WallSide, ContactKind::WallSide),
        ContactAction::Ignore
    );
}

#[test]
fn roaming_creatures_step_along_their_facing() {
    // One roaming tick steps each creature through the movement resolver
    // along the direction it faced when the tick began, whatever the
    // spontaneous-turn draws decide for the next tick.
    let mut rng = new_rng();
    let walls: Vec<Pos> = vec![Pos { x: 480, y: 480 }];
    let mut creatures = vec![
        CreatureEntity {
            position: Pos { x: 0, y: 0 },
            direction: Direction::Right,
            velocity: Velocity { current: 200, max: 200 },
        },
        CreatureEntity {
            position: Pos { x: 96, y: 48 },
            direction: Direction::Up,
            velocity: Velocity { current: 200, max: 200 },
        },
    ];
    creature_movement(&mut creatures, &walls, &mut rng);
    assert_eq!(creatures[0].position, Pos { x: 2, y: 0 });
    assert_eq!(creatures[1].position, Pos { x: 96, y: 50 });
    assert_eq!(creatures[0].velocity.current, 200);
}

#[test]
fn a_cornered_creature_stays_put_for_the_tick() {
    // The straight step and both waypoints of the chosen side are walled:
    // the resolver refuses the step, so this tick the creature only turns
    // in place (from the next tick it roams along its new facing).
    let mut rng = new_rng();
    let walls: Vec<Pos> = vec![
        Pos { x: 48, y: 0 },
        Pos { x: 6, y: -48 },
        Pos { x: 48, y: -48 },
    ];
    let mut creatures = vec![CreatureEntity {
        position: Pos { x: 6, y: 0 },
        direction: Direction::Right,
        velocity: Velocity { current: 200, max: 200 },
    }];
    creature_movement(&mut creatures, &walls, &mut rng);
    assert_eq!(creatures[0].position, Pos { x: 6, y: 0 });
    assert_eq!(creatures[0].velocity.max, 200);
}

#[test]
fn roaming_creatures_never_enter_walls() {
    // Containment for creatures: whatever they roam, they never end a tick
    // overlapping a wall.
    let mut rng = new_rng();
    let mut walls: Vec<Pos> = Vec::new();
    let mut c = 0;
    while c < 11 {
        walls.push(Pos { x: 48 * c - 240, y: 96 });
        walls.push(Pos { x: 48 * c - 240, y: -96 });
        walls.push(Pos { x: 48 * 5, y: 48 * (c - 5) });
        walls.push(Pos { x: -48 * 5, y: 48 * (c - 5) });
        c += 1;
    }
    let mut creatures = vec![CreatureEntity {
        position: Pos { x: 0, y: 0 },
        direction: Direction::Right,
        velocity: Velocity { current: 200, max: 200 },
    }];
    for _ in 0..600 {
        creature_movement(&mut creatures, &walls, &mut rng);
        for w in walls.iter() {
            assert!(!bomberman::geometry::vecs_xy_intersect(&creatures[0].position, w));
        }
    }
}

#[test]
fn bumping_a_wall_keeps_the_creature_in_place() {
    let mut rng = new_rng();
    let mut c = CreatureEntity {
        position: Pos { x: 48, y: 48 },
        direction: Direction::Left,
        velocity: Velocity { current: 200, max: 200 },
    };
    for _ in 0..200 {
        creature_bump_turn(&mut c, &mut rng);
        assert_eq!(c.position, Pos { x: 48, y: 48 });
        assert_eq!(c.velocity.max, 200);
    }
}

#[test]
fn random_directions_are_always_cardinal() {
    let mut rng = new_rng();
    for _ in 0..200 {
        let d = random_direction(&mut rng);
        assert!(matches!(
            d,
            Direction::Left | Direction::Up | Direction::Right | Direction::Down
        ));
    }
}

#[test]
fn a_dying_player_is_removed_when_its_countdown_ends() {
    let mut dying = vec![DyingPlayer {
        player: PlayerEntity::new(0, Pos { x: 48, y: 48 }),
        effects: StopAndFlashing::default(),
    }];
    assert_eq!(dying[0].effects.2.remaining_ms, 3000);
    assert_eq!(dying[0].effects.1.period_ms, 200);
    despawn_player(&mut dying, 1000);
    assert_eq!(dying.len(), 1);
    assert_eq!(dying[0].effects.2.remaining_ms, 2000);
    despawn_player(&mut dying, 2000);
    // The countdown just ran out: the entry is gone for good.
    assert_eq!(dying.len(), 0);
}

#[test]
fn spent_countdowns_never_linger() {
    // An entry whose countdown has run out is removed, however it got
    // there; one with time left survives, ticked.
    let mut dying = vec![
        DyingPlayer {
            player: PlayerEntity::new(0, Pos { x: 0, y: 0 }),
            effects: StopAndFlashing(Stop, Animation::new(200), CountdownTimer::new(0)),
        },
        DyingPlayer {
            player: PlayerEntity::new(1, Pos { x: 48, y: 0 }),
            effects: StopAndFlashing(Stop, Animation::new(200), CountdownTimer::new(500)),
        },
        DyingPlayer {
            player: PlayerEntity::new(2, Pos { x: 96, y: 0 }),
            effects: StopAndFlashing(Stop, Animation::new(200), CountdownTimer::new(1000)),
        },
    ];
    despawn_player(&mut dying, 600);
    assert_eq!(dying.len(), 1);
    assert_eq!(dying[0].player.id, 2);
    assert_eq!(dying[0].effects.2.remaining_ms, 400);
}
