//! Turning a loaded map into a spawn plan: which entity belongs on each
//! grid cell, and at which world position. The plan is pure data; whoever
//! renders the level walks it and creates sprites and bodies.

use vstd::prelude::*;
use crate::geometry::{Pos, spec_index_to_position, index_to_position};
use crate::map::{GameMap, map_view, map_wf};

verus! {

/// What one cell of a full level map asks to spawn.
#[derive(Clone, Copy, PartialEq, Eq, Structural, Debug)]
pub enum SpawnKind {
    NormalWall,
    NormalBox,
    PlayerSpawn,
    BombNumberBuffBox,
    PowerBuffBox,
    SpeedBuffBox,
    CreatureSpawn,
    PortalBox,
    LastWall,
    GreenWay,
}

/// One entry of a spawn plan.
#[derive(Clone, Copy, PartialEq, Eq, Structural, Debug)]
pub struct Spawn<K> {
    pub kind: K,
    pub position: Pos,
}

/// The entity a full-map tile code asks for; any unknown code is plain
/// floor.
pub open spec fn spec_spawn_kind(code: i32) -> SpawnKind {
    if code == 1 {
        SpawnKind::NormalWall
    } else if code == 2 {
        SpawnKind::NormalBox
    } else if code == 3 {
        SpawnKind::PlayerSpawn
    } else if code == 4 {
        SpawnKind::BombNumberBuffBox
    } else if code == 5 {
        SpawnKind::PowerBuffBox
    } else if code == 6 {
        SpawnKind::SpeedBuffBox
    } else if code == 7 {
        SpawnKind::CreatureSpawn
    } else if code == 8 {
        SpawnKind::PortalBox
    } else if code == 9 {
        SpawnKind::LastWall
    } else {
        SpawnKind::GreenWay
    }
}

/// Maps a tile code to the entity it spawns.
pub fn spawn_kind(code: i32) -> (r: SpawnKind)
    ensures
        r == spec_spawn_kind(code),
{
    match code {
        1 => SpawnKind::NormalWall,
        2 => SpawnKind::NormalBox,
        3 => SpawnKind::PlayerSpawn,
        4 => SpawnKind::BombNumberBuffBox,
        5 => SpawnKind::PowerBuffBox,
        6 => SpawnKind::SpeedBuffBox,
        7 => SpawnKind::CreatureSpawn,
        8 => SpawnKind::PortalBox,
        9 => SpawnKind::LastWall,
        _ => SpawnKind::GreenWay,
    }
}

/// The plan of one map row: one spawn per cell, at that cell's world tile.
pub open spec fn spec_row_plan(row: Seq<i32>, row_index: int, height: int) -> Seq<
    Spawn<SpawnKind>,
> {
    Seq::new(
        row.len(),
        |c: int|
            Spawn {
                kind: spec_spawn_kind(row[c]),
                position: spec_index_to_position(c, row_index, height),
            },
    )
}

/// The plan of the rows from `r` on, concatenated row-major.
pub open spec fn spec_map_plan_from(rows: Seq<Seq<i32>>, r: int, height: int) -> Seq<
    Spawn<SpawnKind>,
>
    decreases rows.len() - r when 0 <= r <= rows.len()
{
    if r >= rows.len() {
        Seq::empty()
    } else {
        spec_row_plan(rows[r], r, height) + spec_map_plan_from(rows, r + 1, height)
    }
}

/// The whole map's spawn plan, row-major from the top row.
pub open spec fn spec_map_plan(m: GameMap) -> Seq<Spawn<SpawnKind>> {
    spec_map_plan_from(map_view(m), 0, map_view(m).len() as int)
}

/// The spawn plan of a loaded level: walks the grid row-major and assigns
/// each cell its entity — walls, boxes with their buff or portal payloads,
/// the player and creature start cells, and plain floor everywhere else.
pub fn setup_map(room_map: &GameMap) -> (r: Vec<Spawn<SpawnKind>>)
    requires
        map_wf(*room_map),
    ensures
        r@ == spec_map_plan(*room_map),
{
    let ghost rows = map_view(*room_map);
    let ghost height = rows.len() as int;
    let mut out: Vec<Spawn<SpawnKind>> = Vec::new();
    let len = room_map.value.len();
    let mut row_index: usize = 0;
    proof {
        assert(Seq::<Spawn<SpawnKind>>::empty() + spec_map_plan_from(rows, 0, height)
            =~= spec_map_plan(*room_map));
    }
    while row_index < len
        invariant
            map_wf(*room_map),
            rows == map_view(*room_map),
            height == rows.len() as int,
            len == rows.len(),
            0 <= row_index <= len,
            spec_map_plan(*room_map) == out@ + spec_map_plan_from(rows, row_index as int, height),
        decreases len - row_index,
    {
        let row = &room_map.value[row_index];
        let ghost rplan = spec_row_plan(rows[row_index as int], row_index as int, height);
        let ghost out0 = out@;
        let mut col_index: usize = 0;
        proof {
            assert(rows[row_index as int] == room_map.value@[row_index as int]@);
            assert(out0 + rplan.take(0) =~= out0);
        }
        while col_index < row.len()
            invariant
                map_wf(*room_map),
                rows == map_view(*room_map),
                height == rows.len() as int,
                len == rows.len(),
                0 <= row_index < rows.len(),
                row == room_map.value@[row_index as int],
                rplan == spec_row_plan(rows[row_index as int], row_index as int, height),
                0 <= col_index <= row@.len(),
                row@ == rows[row_index as int],
                out@ == out0 + rplan.take(col_index as int),
            decreases row@.len() - col_index,
        {
            let cell = row[col_index];
            let translation = index_to_position(col_index, row_index, len);
            let s = Spawn { kind: spawn_kind(cell), position: translation };
            proof {
                assert(rplan[col_index as int] == s);
                assert((out0 + rplan.take(col_index as int)).push(s) =~= out0 + rplan.take(
                    col_index as int + 1,
                ));
            }
            out.push(s);
            col_index = col_index + 1;
        }
        proof {
            assert(rplan.take(rplan.len() as int) =~= rplan);
            assert(out@ =~= out0 + rplan);
            assert(out0 + rplan + spec_map_plan_from(rows, row_index as int + 1, height)
                =~= out0 + spec_map_plan_from(rows, row_index as int, height));
        }
        row_index = row_index + 1;
    }
    proof {
        assert(spec_map_plan_from(rows, rows.len() as int, height)
            =~= Seq::<Spawn<SpawnKind>>::empty());
        assert(out@ + Seq::<Spawn<SpawnKind>>::empty() =~= out@);
    }
    out
}

/// What one cell of the plain room layout asks to spawn: the early room
/// model knows only walls, destructible walls over floor, the player's
/// start cell over floor, and floor.
#[derive(Clone, Copy, PartialEq, Eq, Structural, Debug)]
pub enum RoomSpawn {
    Wall,
    DestructibleWall,
    PlayerSpawn,
    Way,
}

/// The entity a room tile code asks for.
pub open spec fn spec_room_kind(code: i32) -> RoomSpawn {
    if code == 1 {
        RoomSpawn::Wall
    } else if code == 2 {
        RoomSpawn::DestructibleWall
    } else if code == 3 {
        RoomSpawn::PlayerSpawn
    } else {
        RoomSpawn::Way
    }
}

/// Maps a room tile code to the entity it spawns.
pub fn room_kind(code: i32) -> (r: RoomSpawn)
    ensures
        r == spec_room_kind(code),
{
    match code {
        1 => RoomSpawn::Wall,
        2 => RoomSpawn::DestructibleWall,
        3 => RoomSpawn::PlayerSpawn,
        _ => RoomSpawn::Way,
    }
}

/// The plan of one room row.
pub open spec fn spec_room_row_plan(row: Seq<i32>, row_index: int, height: int) -> Seq<
    Spawn<RoomSpawn>,
> {
    Seq::new(
        row.len(),
        |c: int|
            Spawn {
                kind: spec_room_kind(row[c]),
                position: spec_index_to_position(c, row_index, height),
            },
    )
}

/// The plan of the room rows from `r` on.
pub open spec fn spec_room_plan_from(rows: Seq<Seq<i32>>, r: int, height: int) -> Seq<
    Spawn<RoomSpawn>,
>
    decreases rows.len() - r when 0 <= r <= rows.len()
{
    if r >= rows.len() {
        Seq::empty()
    } else {
        spec_room_row_plan(rows[r], r, height) + spec_room_plan_from(rows, r + 1, height)
    }
}

/// The whole room's spawn plan.
pub open spec fn spec_room_plan(m: GameMap) -> Seq<Spawn<RoomSpawn>> {
    spec_room_plan_from(map_view(m), 0, map_view(m).len() as int)
}

/// The spawn plan of the plain room layout: permanent walls on code 1,
/// destructible walls (over floor) on code 2, the player's start cell
/// (over floor) on code 3, floor everywhere else.
pub fn game_setup_room(map_resource: &GameMap) -> (r: Vec<Spawn<RoomSpawn>>)
    requires
        map_wf(*map_resource),
    ensures
        r@ == spec_room_plan(*map_resource),
{
    let ghost rows = map_view(*map_resource);
    let ghost height = rows.len() as int;
    let mut out: Vec<Spawn<RoomSpawn>> = Vec::new();
    let len = map_resource.value.len();
    let mut row_index: usize = 0;
    proof {
        assert(Seq::<Spawn<RoomSpawn>>::empty() + spec_room_plan_from(rows, 0, height)
            =~= spec_room_plan(*map_resource));
    }
    while row_index < len
        invariant
            map_wf(*map_resource),
            rows == map_view(*map_resource),
            height == rows.len() as int,
            len == rows.len(),
            0 <= row_index <= len,
            spec_room_plan(*map_resource) == out@ + spec_room_plan_from(
                rows,
                row_index as int,
                height,
            ),
        decreases len - row_index,
    {
        let row = &map_resource.value[row_index];
        let ghost rplan = spec_room_row_plan(rows[row_index as int], row_index as int, height);
        let ghost out0 = out@;
        let mut col_index: usize = 0;
        proof {
            assert(rows[row_index as int] == map_resource.value@[row_index as int]@);
            assert(out0 + rplan.take(0) =~= out0);
        }
        while col_index < row.len()
            invariant
                map_wf(*map_resource),
                rows == map_view(*map_resource),
                height == rows.len() as int,
                len == rows.len(),
                0 <= row_index < rows.len(),
                row == map_resource.value@[row_index as int],
                rplan == spec_room_row_plan(rows[row_index as int], row_index as int, height),
                0 <= col_index <= row@.len(),
                row@ == rows[row_index as int],
                out@ == out0 + rplan.take(col_index as int),
            decreases row@.len() - col_index,
        {
            let cell = row[col_index];
            let translation = index_to_position(col_index, row_index, len);
            let s = Spawn { kind: room_kind(cell), position: translation };
            proof {
                assert(rplan[col_index as int] == s);
                assert((out0 + rplan.take(col_index as int)).push(s) =~= out0 + rplan.take(
                    col_index as int + 1,
                ));
            }
            out.push(s);
            col_index = col_index + 1;
        }
        proof {
            assert(rplan.take(rplan.len() as int) =~= rplan);
            assert(out@ =~= out0 + rplan);
            assert(out0 + rplan + spec_room_plan_from(rows, row_index as int + 1, height)
                =~= out0 + spec_room_plan_from(rows, row_index as int, height));
        }
        row_index = row_index + 1;
    }
    proof {
        assert(spec_room_plan_from(rows, rows.len() as int, height)
            =~= Seq::<Spawn<RoomSpawn>>::empty());
        assert(out@ + Seq::<Spawn<RoomSpawn>>::empty() =~= out@);
    }
    out
}

} // verus!
