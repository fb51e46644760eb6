use bomberman::bases::have_player_way_position;
use bomberman::components::{BombNumber, BombPower};
use bomberman::game::{CreatureEntity, PlayerEntity};
use bomberman::geometry::Pos;
use bomberman::map::GameMap;
use bomberman::setup::{RoomSpawn, Spawn, SpawnKind, game_setup_room, room_kind, setup_map, spawn_kind};

#[test]
fn the_first_level_is_eleven_by_thirteen() {
    let m = GameMap::first();
    assert_eq!(m.len(), 11);
    for row in m.value.iter() {
        assert_eq!(row.len(), 13);
    }
    assert_eq!(m.value[0][0], 1);
    assert_eq!(m.value[9][1], 3);
    assert_eq!(m.value[9][2], 8);
    assert_eq!(m.value[10][12], 9);
}

#[test]
fn lookups_outside_the_grid_block_blasts() {
    let m = GameMap::first();
    // The ring wall blocks; the start cell is open; outside has no cell.
    assert!(!m.open_for_blast(&Pos { x: 0, y: 0 }));
    assert!(m.open_for_blast(&Pos { x: 48, y: 48 }));
    assert!(!m.open_for_blast(&Pos { x: -48, y: 48 }));
    assert!(!m.open_for_blast(&Pos { x: 48, y: 4800 }));
    assert_eq!(m.cell_at(&Pos { x: 96, y: 48 }), Some(8));
    assert_eq!(m.cell_at(&Pos { x: 48, y: 4800 }), None);
}

#[test]
fn every_tile_code_maps_to_its_spawn() {
    assert_eq!(spawn_kind(1), SpawnKind::NormalWall);
    assert_eq!(spawn_kind(2), SpawnKind::NormalBox);
    assert_eq!(spawn_kind(3), SpawnKind::PlayerSpawn);
    assert_eq!(spawn_kind(4), SpawnKind::BombNumberBuffBox);
    assert_eq!(spawn_kind(5), SpawnKind::PowerBuffBox);
    assert_eq!(spawn_kind(6), SpawnKind::SpeedBuffBox);
    assert_eq!(spawn_kind(7), SpawnKind::CreatureSpawn);
    assert_eq!(spawn_kind(8), SpawnKind::PortalBox);
    assert_eq!(spawn_kind(9), SpawnKind::LastWall);
    assert_eq!(spawn_kind(0), SpawnKind::GreenWay);
    assert_eq!(spawn_kind(42), SpawnKind::GreenWay);
}

#[test]
fn the_level_plan_covers_every_cell_row_major() {
    let m = GameMap::first();
    let plan = setup_map(&m);
    assert_eq!(plan.len(), 11 * 13);
    assert_eq!(
        plan[0],
        Spawn { kind: SpawnKind::NormalWall, position: Pos { x: 0, y: 480 } }
    );
    // Row 9, column 1: the player's start cell, one tile above the floor.
    assert_eq!(
        plan[9 * 13 + 1],
        Spawn { kind: SpawnKind::PlayerSpawn, position: Pos { x: 48, y: 48 } }
    );
    assert_eq!(
        plan[9 * 13 + 2],
        Spawn { kind: SpawnKind::PortalBox, position: Pos { x: 96, y: 48 } }
    );
}

#[test]
fn the_room_plan_knows_its_four_kinds() {
    assert_eq!(room_kind(1), RoomSpawn::Wall);
    assert_eq!(room_kind(2), RoomSpawn::DestructibleWall);
    assert_eq!(room_kind(3), RoomSpawn::PlayerSpawn);
    assert_eq!(room_kind(0), RoomSpawn::Way);
    assert_eq!(room_kind(9), RoomSpawn::Way);
    let m = GameMap { value: vec![vec![1, 2], vec![3, 0]] };
    let plan = game_setup_room(&m);
    assert_eq!(plan.len(), 4);
    assert_eq!(plan[0], Spawn { kind: RoomSpawn::Wall, position: Pos { x: 0, y: 48 } });
    assert_eq!(
        plan[1],
        Spawn { kind: RoomSpawn::DestructibleWall, position: Pos { x: 48, y: 48 } }
    );
    assert_eq!(plan[2], Spawn { kind: RoomSpawn::PlayerSpawn, position: Pos { x: 0, y: 0 } });
    assert_eq!(plan[3], Spawn { kind: RoomSpawn::Way, position: Pos { x: 48, y: 0 } });
}

#[test]
fn players_report_each_floor_tile_they_stand_on() {
    let players = vec![Pos { x: 24, y: 0 }, Pos { x: 480, y: 480 }];
    let ways = vec![Pos { x: 0, y: 0 }, Pos { x: 48, y: 0 }, Pos { x: 240, y: 240 }];
    let r = have_player_way_position(&players, &ways);
    // The first player straddles the first two tiles; the second none.
    assert_eq!(r, vec![Pos { x: 0, y: 0 }, Pos { x: 48, y: 0 }]);
}

#[test]
fn fresh_entities_carry_the_starting_stats() {
    let p = PlayerEntity::new(7, Pos { x: 48, y: 48 });
    assert_eq!(p.id, 7);
    assert_eq!(p.power, BombPower(1));
    assert_eq!(p.number, BombNumber { max: 1, current: 0 });
    assert!(p.alive);
    assert!(!p.stopped);
    assert_eq!(p.motion.velocity.max, 150);
    assert_eq!(p.motion.velocity.current, 0);
    let c = CreatureEntity::new(Pos { x: 96, y: 96 });
    assert_eq!(c.velocity.current, 200);
}

#[test]
fn is_enough_compares_current_against_max() {
    let n = BombNumber { max: 2, current: 1 };
    assert!(n.is_enough());
    let full = BombNumber { max: 2, current: 2 };
    assert!(!full.is_enough());
}
