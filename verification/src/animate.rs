//! Sprite-index selection: the per-frame stepping of the bomb, blast and
//! walking-character animations, and the lookup of a blast edge cell's
//! sprite from its direction and terminal flag. Pure presentation data,
//! kept out of the propagation and movement logic.

use vstd::prelude::*;
use crate::components::Direction;

verus! {

/// The bomb's three-frame pulse: 0, 1, 2, and back to 0.
pub open spec fn spec_bomb_next_index(index: u32) -> u32 {
    if index == 0 {
        1u32
    } else if index == 1 {
        2u32
    } else {
        0u32
    }
}

/// Steps the bomb sprite one animation frame.
pub fn animate_bomb(index: u32) -> (r: u32)
    ensures
        r == spec_bomb_next_index(index),
{
    if index == 0 {
        1
    } else if index == 1 {
        2
    } else {
        0
    }
}

/// The center blast cell's burn-out: 8, 9, 10, then the dying frame 2,
/// where it stays.
pub open spec fn spec_fire_next_index(index: u32) -> u32 {
    if index == 8 {
        9u32
    } else if index == 9 {
        10u32
    } else if index == 10 {
        2u32
    } else {
        index
    }
}

/// Steps the center blast sprite one animation frame.
pub fn animate_fire(index: u32) -> (r: u32)
    ensures
        r == spec_fire_next_index(index),
{
    if index == 8 {
        9
    } else if index == 9 {
        10
    } else if index == 10 {
        2
    } else {
        index
    }
}

/// One step of a walking character's animation against its direction's
/// index table: a sprite foreign to the table snaps to the table's first
/// frame; otherwise the first frame steps to the second, the second to the
/// third, and anything else returns to the first.
pub open spec fn spec_walk_next_index(indexs: Seq<u32>, index: u32) -> u32 {
    if !indexs.contains(index) {
        indexs[0]
    } else if index == indexs[0] {
        indexs[1]
    } else if index == indexs[1] {
        indexs[2]
    } else {
        indexs[0]
    }
}

/// Steps a walking character's sprite one animation frame along the index
/// table of its facing direction (`animate_player` and `animate_creature`
/// share this rule).
pub fn animate_walk(indexs: &Vec<u32>, index: u32) -> (r: u32)
    requires
        indexs@.len() >= 3,
    ensures
        r == spec_walk_next_index(indexs@, index),
{
    let mut in_table = false;
    let mut i: usize = 0;
    while i < indexs.len()
        invariant
            0 <= i <= indexs@.len(),
            in_table == exists|j: int| 0 <= j < i && indexs@[j] == index,
        decreases indexs@.len() - i,
    {
        if indexs[i] == index {
            in_table = true;
        }
        i = i + 1;
    }
    if !in_table {
        indexs[0]
    } else if index == indexs[0] {
        indexs[1]
    } else if index == indexs[1] {
        indexs[2]
    } else {
        indexs[0]
    }
}

/// The sprite of a blast edge cell, keyed by its direction and whether it
/// is the terminal cap of its ray.
pub open spec fn spec_ember_sprite_index(direction: Direction, is_end: bool) -> u32 {
    match (direction, is_end) {
        (Direction::Left, true) => 0u32,
        (Direction::Right, true) => 3u32,
        (Direction::Up, true) => 4u32,
        (Direction::Down, true) => 6u32,
        (Direction::Left, false) => 1u32,
        (Direction::Right, false) => 1u32,
        (Direction::Up, false) => 5u32,
        (Direction::Down, false) => 5u32,
    }
}

/// Looks up a blast edge cell's sprite: a terminal cap per direction, or
/// the horizontal or vertical mid-segment.
pub fn ember_sprite_index(direction: Direction, is_end: bool) -> (r: u32)
    ensures
        r == spec_ember_sprite_index(direction, is_end),
{
    match (direction, is_end) {
        (Direction::Left, true) => 0,
        (Direction::Right, true) => 3,
        (Direction::Up, true) => 4,
        (Direction::Down, true) => 6,
        (Direction::Left, false) | (Direction::Right, false) => 1,
        (Direction::Up, false) | (Direction::Down, false) => 5,
    }
}

/// The animation period a walking speed selects: four frames per traversed
/// tile-second, so faster characters animate faster.
pub fn animation_period_from_speed(speed: i32) -> (r: u32)
    requires
        speed > 0,
    ensures
        r == 4000int / (speed as int),
{
    (4000 / speed) as u32
}

} // verus!
