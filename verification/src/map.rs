//! The level map: an immutable (per level) row-major grid of integer tile
//! codes, with bounds-checked lookup and the blast-blocking test.
//!
//! Tile codes: 0 open floor, 1 permanent wall, 2 plain box, 3 player spawn,
//! 4 extra-bomb buff box, 5 power buff box, 6 speed buff box, 7 creature
//! spawn, 8 portal box, 9 border wall. Only codes 1 and 9 block blast
//! propagation; boxes are destroyed but do not stop the blast.

use vstd::prelude::*;
use crate::geometry::{Pos, spec_pos_to_grid, pos_to_grid, MAX_TILE_INDEX};

verus! {

/// A loaded level grid. The grid itself is never mutated at runtime;
/// destroyed terrain is tracked by entity removal, not by rewriting cells.
pub struct GameMap {
    pub value: Vec<Vec<i32>>,
}

/// The grid as a sequence of rows of tile codes.
pub open spec fn map_view(m: GameMap) -> Seq<Seq<i32>> {
    m.value@.map_values(|row: Vec<i32>| row@)
}

/// True iff the tile code stops a blast (permanent or border wall).
pub open spec fn blocks_blast(code: i32) -> bool {
    code == 9 || code == 1
}

/// A well-formed map is a nonempty rectangle small enough to index.
pub open spec fn map_wf(m: GameMap) -> bool {
    &&& 0 < map_view(m).len() <= MAX_TILE_INDEX
    &&& 0 < map_view(m)[0].len() <= MAX_TILE_INDEX
    &&& forall|i: int|
        0 <= i < map_view(m).len() ==> (#[trigger] map_view(m)[i]).len() == map_view(m)[0].len()
}

/// The tile code at the grid cell under a world position, if that position
/// lies inside the grid. Positions outside count as having no cell, and
/// every caller treats that as blocking.
pub open spec fn spec_cell_at(m: GameMap, p: Pos) -> Option<i32> {
    match spec_pos_to_grid(p, map_view(m).len() as int) {
        Some((row, col)) => {
            if 0 <= col < map_view(m)[row].len() {
                Some(map_view(m)[row][col])
            } else {
                None
            }
        },
        None => None,
    }
}

/// True iff a blast may spread into the tile under `p`: the position has a
/// cell and that cell's code does not block.
pub open spec fn spec_open_for_blast(m: GameMap, p: Pos) -> bool {
    match spec_cell_at(m, p) {
        Some(code) => !blocks_blast(code),
        None => false,
    }
}

/// The first level's grid: an 11-row, 13-column room ringed by walls.
pub open spec fn first_map_rows() -> Seq<Seq<i32>> {
    seq![
        seq![1i32, 9i32, 9i32, 9i32, 9i32, 9i32, 9i32, 9i32, 9i32, 9i32, 9i32, 9i32, 1i32],
        seq![1i32, 0i32, 2i32, 2i32, 0i32, 4i32, 0i32, 0i32, 2i32, 0i32, 0i32, 0i32, 1i32],
        seq![1i32, 0i32, 9i32, 0i32, 9i32, 4i32, 9i32, 0i32, 9i32, 0i32, 1i32, 0i32, 1i32],
        seq![1i32, 0i32, 0i32, 4i32, 0i32, 0i32, 0i32, 0i32, 0i32, 0i32, 1i32, 0i32, 1i32],
        seq![1i32, 0i32, 9i32, 0i32, 9i32, 0i32, 9i32, 0i32, 9i32, 0i32, 9i32, 0i32, 1i32],
        seq![1i32, 0i32, 0i32, 0i32, 0i32, 0i32, 6i32, 0i32, 0i32, 0i32, 5i32, 8i32, 1i32],
        seq![1i32, 0i32, 9i32, 0i32, 9i32, 0i32, 9i32, 0i32, 9i32, 0i32, 9i32, 9i32, 1i32],
        seq![1i32, 0i32, 0i32, 6i32, 0i32, 6i32, 0i32, 0i32, 0i32, 0i32, 2i32, 0i32, 1i32],
        seq![1i32, 0i32, 9i32, 0i32, 9i32, 0i32, 9i32, 0i32, 9i32, 0i32, 4i32, 1i32, 1i32],
        seq![1i32, 3i32, 8i32, 0i32, 0i32, 0i32, 0i32, 0i32, 0i32, 0i32, 2i32, 0i32, 1i32],
        seq![9i32, 9i32, 9i32, 9i32, 9i32, 9i32, 9i32, 9i32, 9i32, 9i32, 9i32, 9i32, 9i32],
    ]
}

impl GameMap {
    /// The first level.
    pub fn first() -> (r: Self)
        ensures
            map_view(r) == first_map_rows(),
            map_wf(r),
    {
        let room_map: Vec<Vec<i32>> = vec![
            vec![1, 9, 9, 9, 9, 9, 9, 9, 9, 9, 9, 9, 1],
            vec![1, 0, 2, 2, 0, 4, 0, 0, 2, 0, 0, 0, 1],
            vec![1, 0, 9, 0, 9, 4, 9, 0, 9, 0, 1, 0, 1],
            vec![1, 0, 0, 4, 0, 0, 0, 0, 0, 0, 1, 0, 1],
            vec![1, 0, 9, 0, 9, 0, 9, 0, 9, 0, 9, 0, 1],
            vec![1, 0, 0, 0, 0, 0, 6, 0, 0, 0, 5, 8, 1],
            vec![1, 0, 9, 0, 9, 0, 9, 0, 9, 0, 9, 9, 1],
            vec![1, 0, 0, 6, 0, 6, 0, 0, 0, 0, 2, 0, 1],
            vec![1, 0, 9, 0, 9, 0, 9, 0, 9, 0, 4, 1, 1],
            vec![1, 3, 8, 0, 0, 0, 0, 0, 0, 0, 2, 0, 1],
            vec![9, 9, 9, 9, 9, 9, 9, 9, 9, 9, 9, 9, 9],
        ];
        let r = GameMap { value: room_map };
        proof {
            assert(map_view(r) =~~= first_map_rows());
        }
        r
    }

    /// Number of rows.
    pub fn len(&self) -> (r: usize)
        ensures
            r == map_view(*self).len(),
    {
        self.value.len()
    }

    /// Bounds-checked lookup of the tile code under a world position.
    pub fn cell_at(&self, p: &Pos) -> (r: Option<i32>)
        requires
            map_wf(*self),
        ensures
            r == spec_cell_at(*self, *p),
    {
        match pos_to_grid(p, self.value.len()) {
            Some((row, col)) => {
                let rows = &self.value[row];
                if col < rows.len() {
                    Some(rows[col])
                } else {
                    None
                }
            },
            None => None,
        }
    }

    /// Whether a blast may spread into the tile under `p`.
    pub fn open_for_blast(&self, p: &Pos) -> (r: bool)
        requires
            map_wf(*self),
        ensures
            r == spec_open_for_blast(*self, *p),
    {
        match self.cell_at(p) {
            Some(code) => !(code == 9 || code == 1),
            None => false,
        }
    }
}

} // verus!
