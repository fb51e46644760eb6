//! Grid geometry: the tile size constants, world positions, the single
//! AABB overlap predicate used for both movement blocking and blast-hit
//! detection, and the conversions between world coordinates and grid
//! (row, column) indices.
//!
//! World coordinates are integers (pixels). Every tile-aligned position is
//! a multiple of `TILE_WIDTH`; the per-tick movement step and all timer
//! durations are integers too, so the whole simulation is exact.

use vstd::prelude::*;

verus! {

/// Sprite scaling factor; the source art is 16 pixels per tile.
pub const SCALE: i32 = 3;
/// Side length of one tile in world units.
pub const TILE_WIDTH: i32 = 16 * SCALE;
pub const HALF_TILE_WIDTH: i32 = 8 * SCALE;
/// Shrink applied to each box in the overlap test, so that entities moving
/// down a corridor do not catch on the corners of adjacent walls.
pub const FIX_DISTANCE: i32 = 5;

/// All positions the simulation handles stay within this bound, which keeps
/// every coordinate computation inside `i32` range.
pub const WORLD_LIMIT: i32 = 1_000_000_000;

/// A continuous 2D world position (or displacement), in world units.
#[derive(Clone, Copy, PartialEq, Eq, Structural, Debug)]
pub struct Pos {
    pub x: i32,
    pub y: i32,
}

pub open spec fn in_world(p: Pos) -> bool {
    -WORLD_LIMIT <= p.x <= WORLD_LIMIT && -WORLD_LIMIT <= p.y <= WORLD_LIMIT
}

/// The overlap convention over bare integer coordinates: two tile-sized
/// boxes overlap iff they are closer than `TILE_WIDTH - FIX_DISTANCE` on
/// both axes, strictly.
pub open spec fn spec_overlaps_xy(ax: int, ay: int, bx: int, by: int) -> bool {
    &&& ax + TILE_WIDTH - FIX_DISTANCE > bx
    &&& bx + TILE_WIDTH - FIX_DISTANCE > ax
    &&& ay + TILE_WIDTH - FIX_DISTANCE > by
    &&& by + TILE_WIDTH - FIX_DISTANCE > ay
}

/// The overlap convention on positions.
pub open spec fn spec_overlaps(a: Pos, b: Pos) -> bool {
    spec_overlaps_xy(a.x as int, a.y as int, b.x as int, b.y as int)
}

/// True iff the tile-sized AABBs at `first` and `second` intersect on both
/// axes. This is the single predicate used for movement blocking, blast-hit
/// detection, buff pickup and portal entry.
pub fn vecs_xy_intersect(first: &Pos, second: &Pos) -> (r: bool)
    ensures
        r == spec_overlaps(*first, *second),
{
    let margin: i64 = (TILE_WIDTH - FIX_DISTANCE) as i64;
    (first.x as i64) + margin > (second.x as i64)
        && (second.x as i64) + margin > (first.x as i64)
        && (first.y as i64) + margin > (second.y as i64)
        && (second.y as i64) + margin > (first.y as i64)
}

/// The same overlap test, taking the first box as bare coordinates.
pub fn aabb_detection(x: i32, y: i32, other: &Pos) -> (r: bool)
    ensures
        r == spec_overlaps(Pos { x, y }, *other),
{
    vecs_xy_intersect(&Pos { x, y }, other)
}

/// Largest row or column index the conversions accept; keeps
/// `TILE_WIDTH * index` within the world bound.
pub const MAX_TILE_INDEX: usize = 20_000_000;

/// World position of the tile at grid cell (row `y`, column `x`) of a map
/// with `len` rows.
pub open spec fn spec_index_to_position(x: int, y: int, len: int) -> Pos {
    Pos { x: (TILE_WIDTH * x) as i32, y: (TILE_WIDTH * (len - y - 1)) as i32 }
}

/// World position of the tile at grid cell (row `y`, column `x`) of a map
/// with `len` rows. Row 0 is visually the top, but world Y grows upward,
/// hence the vertical flip.
pub fn index_to_position(x: usize, y: usize, len: usize) -> (r: Pos)
    requires
        y < len,
        x <= MAX_TILE_INDEX,
        len <= MAX_TILE_INDEX,
    ensures
        r == spec_index_to_position(x as int, y as int, len as int),
        r.x == TILE_WIDTH * x,
        r.y == TILE_WIDTH * (len - y - 1),
        0 <= r.x <= WORLD_LIMIT,
        0 <= r.y <= WORLD_LIMIT,
{
    Pos { x: TILE_WIDTH * (x as i32), y: TILE_WIDTH * ((len - y - 1) as i32) }
}

/// Grid cell of a world position: column from X, row from the vertical
/// flip of Y. Defined for nonnegative coordinates; the truncating division
/// means any position inside a tile maps to that tile.
pub open spec fn spec_pos_to_grid(p: Pos, height: int) -> Option<(int, int)> {
    if p.x >= 0 && p.y >= 0 && (p.y as int) / (TILE_WIDTH as int) < height {
        Some((height - 1 - (p.y as int) / (TILE_WIDTH as int), (p.x as int) / (TILE_WIDTH as int)))
    } else {
        None
    }
}

/// Converts a world position to (row, column) indices of a grid with
/// `height` rows. Positions left of or below the grid, or above its top
/// row, have no cell; callers treat them as blocking.
pub fn pos_to_grid(p: &Pos, height: usize) -> (r: Option<(usize, usize)>)
    requires
        height <= MAX_TILE_INDEX,
    ensures
        match r {
            Some((row, col)) => spec_pos_to_grid(*p, height as int) == Some((row as int, col as int)),
            None => spec_pos_to_grid(*p, height as int) is None,
        },
{
    if p.x >= 0 && p.y >= 0 {
        let rows_up = p.y / TILE_WIDTH;
        if rows_up < height as i32 {
            Some(((height as i32 - 1 - rows_up) as usize, (p.x / TILE_WIDTH) as usize))
        } else {
            None
        }
    } else {
        None
    }
}

/// The Euclidean remainder of a coordinate by the tile width: how far the
/// coordinate sits above the tile boundary at or below it.
fn tile_rem(v: i32) -> (r: i32)
    requires
        -WORLD_LIMIT <= v <= WORLD_LIMIT,
    ensures
        r == (v as int) % (TILE_WIDTH as int),
        0 <= r < TILE_WIDTH,
{
    proof {
        vstd::arithmetic::div_mod::lemma_mod_bound(v as int, TILE_WIDTH as int);
    }
    if v >= 0 {
        v % TILE_WIDTH
    } else {
        let m = -v;
        let q = m / TILE_WIDTH;
        let rr = m % TILE_WIDTH;
        proof {
            vstd::arithmetic::div_mod::lemma_fundamental_div_mod(m as int, TILE_WIDTH as int);
        }
        if rr == 0 {
            proof {
                vstd::arithmetic::div_mod::lemma_fundamental_div_mod_converse(
                    v as int,
                    TILE_WIDTH as int,
                    -(q as int),
                    0,
                );
            }
            0
        } else {
            proof {
                vstd::arithmetic::div_mod::lemma_fundamental_div_mod_converse(
                    v as int,
                    TILE_WIDTH as int,
                    -(q as int) - 1,
                    TILE_WIDTH - rr,
                );
            }
            TILE_WIDTH - rr
        }
    }
}

/// The floor tiles under a position that straddles the grid: `None` for a
/// tile-aligned position; for a position aligned on one axis only, the two
/// tiles it stands across, lower (or left) tile first.
pub open spec fn spec_get_way_translation(p: Pos) -> Option<(Pos, Pos)> {
    let t = TILE_WIDTH as int;
    if p.x as int % t == 0 && p.y as int % t == 0 {
        None
    } else if p.x as int % t == 0 {
        let oy = p.y as int - p.y as int % t;
        Some((Pos { x: p.x, y: oy as i32 }, Pos { x: p.x, y: (oy + t) as i32 }))
    } else {
        let ox = p.x as int - p.x as int % t;
        Some((Pos { x: ox as i32, y: p.y }, Pos { x: (ox + t) as i32, y: p.y }))
    }
}

/// The one or two floor tiles under an entity's position: none when the
/// entity is exactly tile-aligned, otherwise the pair of tiles it straddles
/// along the unaligned axis.
pub fn get_way_translation(player_position: &Pos) -> (r: Option<(Pos, Pos)>)
    requires
        in_world(*player_position),
    ensures
        r == spec_get_way_translation(*player_position),
{
    let rx = tile_rem(player_position.x);
    let ry = tile_rem(player_position.y);
    if rx == 0 && ry == 0 {
        None
    } else if rx == 0 {
        let one = Pos { x: player_position.x, y: player_position.y - ry };
        let two = Pos { x: one.x, y: one.y + TILE_WIDTH };
        Some((one, two))
    } else {
        let one = Pos { x: player_position.x - rx, y: player_position.y };
        let two = Pos { x: one.x + TILE_WIDTH, y: one.y };
        Some((one, two))
    }
}

} // verus!
