use bomberman::bomb::{
    BuffEntity, DestructibleEntity, EmberCell, FireEntity, FireKind, bomb_destruction,
    despawn_fire, ember_cells, snap_coord, snap_position,
};
use bomberman::components::{
    Buff, CountdownTimer, Destructible, Direction, EMBER_LIFETIME_MS, FIRE_LIFETIME_MS, Fire,
};
use bomberman::geometry::Pos;
use bomberman::map::GameMap;

/// A square room of the given side, ringed by border walls, open inside.
fn ring_room(side: usize) -> GameMap {
    let mut rows: Vec<Vec<i32>> = Vec::new();
    for r in 0..side {
        let mut row: Vec<i32> = Vec::new();
        for c in 0..side {
            if r == 0 || c == 0 || r == side - 1 || c == side - 1 {
                row.push(9);
            } else {
                row.push(0);
            }
        }
        rows.push(row);
    }
    GameMap { value: rows }
}

#[test]
fn snapping_rounds_half_a_tile_up() {
    assert_eq!(snap_coord(0), 0);
    assert_eq!(snap_coord(23), 0);
    assert_eq!(snap_coord(24), 48);
    assert_eq!(snap_coord(70), 48);
    assert_eq!(snap_coord(72), 96);
    // Below zero the fractional part counts toward zero: floor tile.
    assert_eq!(snap_coord(-62), -96);
    assert_eq!(snap_coord(-48), -48);
    assert_eq!(
        snap_position(&Pos { x: 70, y: 24 }),
        Pos { x: 48, y: 48 }
    );
}

#[test]
fn ring_walls_truncate_a_power_two_blast() {
    // A 5x5 room ringed by walls, detonation at the center tile (2,2):
    // power 2 reaches only one tile in each direction before the ring, and
    // each ray's outermost created cell carries the terminal cap.
    let map = ring_room(5);
    let origin = Pos { x: 96, y: 96 };
    let cells = ember_cells(&map, &origin, 2);
    assert_eq!(cells.len(), 4);
    assert_eq!(
        cells[0],
        EmberCell { position: Pos { x: 96, y: 144 }, direction: Direction::Up, is_end: true }
    );
    assert_eq!(
        cells[1],
        EmberCell { position: Pos { x: 96, y: 48 }, direction: Direction::Down, is_end: true }
    );
    assert_eq!(
        cells[2],
        EmberCell { position: Pos { x: 48, y: 96 }, direction: Direction::Left, is_end: true }
    );
    assert_eq!(
        cells[3],
        EmberCell { position: Pos { x: 144, y: 96 }, direction: Direction::Right, is_end: true }
    );
}

#[test]
fn a_wall_at_distance_one_blocks_the_whole_direction() {
    // A wall directly north of the bomb: zero cells north, even at power 2.
    let mut map = ring_room(7);
    // The cell one tile north of (3,3) is row 2, column 3.
    map.value[2][3] = 1;
    let origin = Pos { x: 144, y: 144 };
    let cells = ember_cells(&map, &origin, 2);
    for c in cells.iter() {
        assert!(c.direction != Direction::Up);
    }
    // The other three directions reach their full two tiles.
    assert_eq!(cells.len(), 6);
}

#[test]
fn open_directions_reach_the_full_power() {
    let map = ring_room(7);
    let origin = Pos { x: 144, y: 144 };
    let cells = ember_cells(&map, &origin, 2);
    assert_eq!(cells.len(), 8);
    // Up ray: distances 1 and 2, the outermost flagged as terminal.
    assert_eq!(cells[0].position, Pos { x: 144, y: 192 });
    assert!(!cells[0].is_end);
    assert_eq!(cells[1].position, Pos { x: 144, y: 240 });
    assert!(cells[1].is_end);
}

#[test]
fn zero_power_creates_no_cells() {
    let map = ring_room(5);
    let cells = ember_cells(&map, &Pos { x: 96, y: 96 }, 0);
    assert_eq!(cells.len(), 0);
}

#[test]
fn blast_cells_expire_with_their_timers() {
    let mut fires = vec![
        FireEntity {
            position: Pos { x: 0, y: 0 },
            fire: Fire(CountdownTimer { remaining_ms: EMBER_LIFETIME_MS }),
            kind: FireKind::Edge { direction: Direction::Up, is_end: true },
        },
        FireEntity {
            position: Pos { x: 48, y: 0 },
            fire: Fire(CountdownTimer { remaining_ms: FIRE_LIFETIME_MS }),
            kind: FireKind::Edge { direction: Direction::Up, is_end: false },
        },
    ];
    despawn_fire(&mut fires, 350);
    // The ember-lifetime cell (350 ms) is gone; the center-lifetime cell
    // (500 ms) survives with 150 ms left.
    assert_eq!(fires.len(), 1);
    assert_eq!(fires[0].position, Pos { x: 48, y: 0 });
    assert_eq!(fires[0].fire.0.remaining_ms, 150);
    despawn_fire(&mut fires, 150);
    assert_eq!(fires.len(), 0);
}

#[test]
fn no_cell_outlives_one_tick_past_its_lifetime() {
    let mut fires = Vec::new();
    for i in 0..10 {
        fires.push(FireEntity {
            position: Pos { x: 48 * i, y: 0 },
            fire: Fire(CountdownTimer { remaining_ms: 1 + (i as u32) * 37 }),
            kind: FireKind::Edge { direction: Direction::Left, is_end: false },
        });
    }
    // One tick at least as long as every lifetime clears everything.
    despawn_fire(&mut fires, 9 * 37 + 1);
    assert_eq!(fires.len(), 0);
}

#[test]
fn destroyed_power_box_reveals_one_power_buff() {
    let dests = vec![DestructibleEntity {
        position: Pos { x: 96, y: 96 },
        kind: Destructible::PowerBuffBox,
    }];
    let fires = vec![Pos { x: 96, y: 96 }];
    let out = bomb_destruction(&dests, &fires);
    assert_eq!(out.survivors.len(), 0);
    assert_eq!(out.buffs.len(), 1);
    assert_eq!(
        out.buffs[0],
        BuffEntity { position: Pos { x: 96, y: 96 }, kind: Buff::PowerBuff }
    );
    assert_eq!(out.portals.len(), 0);
    assert_eq!(out.defeats, 0);
}

#[test]
fn each_destructible_kind_applies_its_outcome() {
    let hit = Pos { x: 0, y: 0 };
    let dests = vec![
        DestructibleEntity { position: hit, kind: Destructible::NormalBox },
        DestructibleEntity { position: hit, kind: Destructible::SpeedBuffBox },
        DestructibleEntity { position: hit, kind: Destructible::BombNumberBuffBox },
        DestructibleEntity { position: hit, kind: Destructible::Portal },
        DestructibleEntity { position: hit, kind: Destructible::Player },
        DestructibleEntity { position: hit, kind: Destructible::Creature },
        DestructibleEntity { position: Pos { x: 480, y: 480 }, kind: Destructible::NormalBox },
    ];
    let fires = vec![hit];
    let out = bomb_destruction(&dests, &fires);
    // Only the far-away box survives.
    assert_eq!(out.survivors.len(), 1);
    assert_eq!(out.survivors[0].position, Pos { x: 480, y: 480 });
    assert_eq!(out.buffs.len(), 2);
    assert_eq!(out.buffs[0].kind, Buff::SpeedBuff);
    assert_eq!(out.buffs[1].kind, Buff::BombNumberBuff);
    assert_eq!(out.portals, vec![hit]);
    assert_eq!(out.defeats, 1);
}

#[test]
fn one_blast_cell_destroys_several_entities_at_once() {
    let hit = Pos { x: 0, y: 0 };
    let dests = vec![
        DestructibleEntity { position: hit, kind: Destructible::NormalBox },
        DestructibleEntity { position: Pos { x: 10, y: 10 }, kind: Destructible::Creature },
    ];
    let fires = vec![hit];
    let out = bomb_destruction(&dests, &fires);
    assert_eq!(out.survivors.len(), 0);
}

#[test]
fn a_ray_blocked_early_still_ends_in_a_cap() {
    // Power 3 northward, wall at distance 2: one cell at distance 1, and
    // as the outermost cell actually created it carries the terminal cap.
    let mut map = ring_room(9);
    map.value[2][4] = 9;
    let origin = Pos { x: 192, y: 192 };
    let cells = ember_cells(&map, &origin, 3);
    let mut up_cells = 0;
    for c in cells.iter() {
        if c.direction == Direction::Up {
            up_cells += 1;
            assert!(c.is_end);
        }
    }
    assert_eq!(up_cells, 1);
}
