//! The movement resolver: per tick, a moving entity steps along its facing
//! direction; when the step would run into a wall, the corner assist either
//! redirects the entity 90 degrees toward the nearer open corridor or leaves
//! it in place. The assist applies at any distance from the corridor's
//! centerline; no nearness threshold gates the turn.

use vstd::prelude::*;
use crate::components::{Direction, Velocity};
use crate::geometry::{Pos, TILE_WIDTH, WORLD_LIMIT, in_world, spec_overlaps, vecs_xy_intersect};

verus! {

/// Distance moved in one tick, in world units.
pub const STEP: i32 = 2;

/// Unit X component of a direction.
pub open spec fn dir_dx(d: Direction) -> int {
    match d {
        Direction::Left => -1,
        Direction::Right => 1,
        Direction::Up => 0,
        Direction::Down => 0,
    }
}

/// Unit Y component of a direction (world Y grows upward).
pub open spec fn dir_dy(d: Direction) -> int {
    match d {
        Direction::Up => 1,
        Direction::Down => -1,
        Direction::Left => 0,
        Direction::Right => 0,
    }
}

/// The displacement of one step at `speed` along `d`.
pub fn get_velocity_vec(direction: &Direction, speed: i32) -> (r: Pos)
    requires
        0 <= speed <= WORLD_LIMIT,
    ensures
        r.x == speed * dir_dx(*direction),
        r.y == speed * dir_dy(*direction),
{
    match *direction {
        Direction::Left => {
            proof {
                assert(dir_dx(*direction) == -1 && dir_dy(*direction) == 0);
            }
            Pos { x: -speed, y: 0 }
        },
        Direction::Up => {
            proof {
                assert(dir_dx(*direction) == 0 && dir_dy(*direction) == 1);
            }
            Pos { x: 0, y: speed }
        },
        Direction::Right => {
            proof {
                assert(dir_dx(*direction) == 1 && dir_dy(*direction) == 0);
            }
            Pos { x: speed, y: 0 }
        },
        Direction::Down => {
            proof {
                assert(dir_dx(*direction) == 0 && dir_dy(*direction) == -1);
            }
            Pos { x: 0, y: -speed }
        },
    }
}

/// Candidate position after one step from `u` along `d`.
pub open spec fn spec_candidate(u: Pos, d: Direction) -> Pos {
    Pos { x: (u.x + STEP * dir_dx(d)) as i32, y: (u.y + STEP * dir_dy(d)) as i32 }
}

/// The first wall in `walls` whose box overlaps the box at `p`.
pub open spec fn spec_find_blocking(walls: Seq<Pos>, p: Pos) -> Option<Pos>
    decreases walls.len(),
{
    if walls.len() == 0 {
        None
    } else if spec_overlaps(p, walls[0]) {
        Some(walls[0])
    } else {
        spec_find_blocking(walls.drop_first(), p)
    }
}

/// No wall's box overlaps the box at `p`.
pub open spec fn spec_point_free(walls: Seq<Pos>, p: Pos) -> bool {
    forall|i: int| 0 <= i < walls.len() ==> !spec_overlaps(p, #[trigger] walls[i])
}

/// The side the corner assist turns toward when movement along `d` is
/// blocked by the wall at `w`: the perpendicular direction whose tile edge
/// is nearer to the entity's off-axis coordinate (ties go down or left).
pub open spec fn spec_adjacent_direction(d: Direction, u: Pos, w: Pos) -> Direction {
    match d {
        Direction::Left | Direction::Right => {
            if (w.y + TILE_WIDTH) - u.y < u.y - (w.y - TILE_WIDTH) {
                Direction::Up
            } else {
                Direction::Down
            }
        },
        Direction::Up | Direction::Down => {
            if (w.x + TILE_WIDTH) - u.x < u.x - (w.x - TILE_WIDTH) {
                Direction::Right
            } else {
                Direction::Left
            }
        },
    }
}

/// The two waypoints tested before a corner turn: the points one tile to the
/// chosen side of the entity and of the blocking wall.
pub open spec fn spec_turn_waypoints(d: Direction, u: Pos, w: Pos) -> (Pos, Pos) {
    match spec_adjacent_direction(d, u, w) {
        Direction::Up => (
            Pos { x: u.x, y: (w.y + TILE_WIDTH) as i32 },
            Pos { x: w.x, y: (w.y + TILE_WIDTH) as i32 },
        ),
        Direction::Down => (
            Pos { x: u.x, y: (w.y - TILE_WIDTH) as i32 },
            Pos { x: w.x, y: (w.y - TILE_WIDTH) as i32 },
        ),
        Direction::Right => (
            Pos { x: (w.x + TILE_WIDTH) as i32, y: u.y },
            Pos { x: (w.x + TILE_WIDTH) as i32, y: w.y },
        ),
        Direction::Left => (
            Pos { x: (w.x - TILE_WIDTH) as i32, y: u.y },
            Pos { x: (w.x - TILE_WIDTH) as i32, y: w.y },
        ),
    }
}

/// What the movement resolver commits for one tick: the straight step when
/// it is clear; otherwise a one-step 90-degree turn toward the nearer side,
/// provided both of that side's waypoints are free; otherwise no move.
pub open spec fn spec_move_or_turn(u: Pos, d: Direction, walls: Seq<Pos>) -> Option<Pos> {
    let cand = spec_candidate(u, d);
    match spec_find_blocking(walls, cand) {
        None => Some(cand),
        Some(w) => {
            let (t1, t2) = spec_turn_waypoints(d, u, w);
            if spec_point_free(walls, t1) && spec_point_free(walls, t2) {
                Some(spec_candidate(u, spec_adjacent_direction(d, u, w)))
            } else {
                None
            }
        },
    }
}

/// Waypoints and turn direction of the corner assist, as executable code.
fn get_turn_waypoints(direction: &Direction, unit_pos: &Pos, wall_pos: &Pos) -> (r: (
    Pos,
    Pos,
    Direction,
))
    requires
        in_world(*unit_pos),
        in_world(*wall_pos),
    ensures
        r.2 == spec_adjacent_direction(*direction, *unit_pos, *wall_pos),
        (r.0, r.1) == spec_turn_waypoints(*direction, *unit_pos, *wall_pos),
{
    match *direction {
        Direction::Left | Direction::Right => {
            let upper = wall_pos.y + TILE_WIDTH;
            let lower = wall_pos.y - TILE_WIDTH;
            if upper - unit_pos.y < unit_pos.y - lower {
                (
                    Pos { x: unit_pos.x, y: upper },
                    Pos { x: wall_pos.x, y: upper },
                    Direction::Up,
                )
            } else {
                (
                    Pos { x: unit_pos.x, y: lower },
                    Pos { x: wall_pos.x, y: lower },
                    Direction::Down,
                )
            }
        },
        Direction::Up | Direction::Down => {
            let right = wall_pos.x + TILE_WIDTH;
            let left = wall_pos.x - TILE_WIDTH;
            if right - unit_pos.x < unit_pos.x - left {
                (
                    Pos { x: right, y: unit_pos.y },
                    Pos { x: right, y: wall_pos.y },
                    Direction::Right,
                )
            } else {
                (
                    Pos { x: left, y: unit_pos.y },
                    Pos { x: left, y: wall_pos.y },
                    Direction::Left,
                )
            }
        },
    }
}

/// Unfolds `spec_find_blocking` past a prefix with no overlap.
proof fn lemma_find_blocking_from(walls: Seq<Pos>, p: Pos, i: int)
    requires
        0 <= i <= walls.len(),
        forall|j: int| 0 <= j < i ==> !spec_overlaps(p, #[trigger] walls[j]),
    ensures
        spec_find_blocking(walls, p) == spec_find_blocking(walls.skip(i), p),
    decreases i,
{
    if i > 0 {
        lemma_find_blocking_from(walls, p, i - 1);
        assert(walls.skip(i - 1).drop_first() =~= walls.skip(i));
        assert(walls.skip(i - 1)[0] == walls[i - 1]);
    } else {
        assert(walls.skip(0) =~= walls);
    }
}

/// Finds the first wall overlapping the box at `p`, as the spec does.
fn find_blocking(walls: &Vec<Pos>, p: &Pos) -> (r: Option<Pos>)
    ensures
        r == spec_find_blocking(walls@, *p),
        r is None ==> spec_point_free(walls@, *p),
        r matches Some(w) ==> walls@.contains(w),
{
    let mut i: usize = 0;
    while i < walls.len()
        invariant
            0 <= i <= walls@.len(),
            forall|j: int| 0 <= j < i ==> !spec_overlaps(*p, #[trigger] walls@[j]),
        decreases walls@.len() - i,
    {
        if vecs_xy_intersect(p, &walls[i]) {
            proof {
                lemma_find_blocking_from(walls@, *p, i as int);
                assert(walls@.skip(i as int)[0] == walls@[i as int]);
            }
            return Some(walls[i]);
        }
        i = i + 1;
    }
    proof {
        lemma_find_blocking_from(walls@, *p, walls@.len() as int);
        assert(walls@.skip(walls@.len() as int) =~= Seq::<Pos>::empty());
    }
    None
}

/// True iff no wall overlaps either of the two points.
fn both_points_free(walls: &Vec<Pos>, p1: &Pos, p2: &Pos) -> (r: bool)
    ensures
        r == (spec_point_free(walls@, *p1) && spec_point_free(walls@, *p2)),
{
    let mut i: usize = 0;
    while i < walls.len()
        invariant
            0 <= i <= walls@.len(),
            forall|j: int| 0 <= j < i ==> !spec_overlaps(*p1, #[trigger] walls@[j]),
            forall|j: int| 0 <= j < i ==> !spec_overlaps(*p2, #[trigger] walls@[j]),
        decreases walls@.len() - i,
    {
        if vecs_xy_intersect(p1, &walls[i]) || vecs_xy_intersect(p2, &walls[i]) {
            return false;
        }
        i = i + 1;
    }
    true
}

/// One tick of the movement resolver for one entity: step straight if the
/// path is clear, otherwise try the corner assist, otherwise stay.
pub fn move_or_turn(unit_pos: &Pos, direction: &Direction, walls: &Vec<Pos>) -> (r: Option<Pos>)
    requires
        in_world(*unit_pos),
        forall|i: int| 0 <= i < walls@.len() ==> in_world(#[trigger] walls@[i]),
    ensures
        r == spec_move_or_turn(*unit_pos, *direction, walls@),
        spec_point_free(walls@, *unit_pos) ==> (r matches Some(np) ==> spec_point_free(
            walls@,
            np,
        )),
{
    proof {
        match spec_move_or_turn(*unit_pos, *direction, walls@) {
            Some(np) => {
                if spec_point_free(walls@, *unit_pos) {
                    lemma_movement_containment(*unit_pos, *direction, walls@, np);
                }
            },
            None => {},
        }
    }
    let velocity_vec = get_velocity_vec(direction, STEP);
    let new_unit_pos = Pos { x: unit_pos.x + velocity_vec.x, y: unit_pos.y + velocity_vec.y };
    let maybe_wall = find_blocking(walls, &new_unit_pos);
    match maybe_wall {
        None => Some(new_unit_pos),
        Some(wall_pos) => {
            let ghost k = choose|k: int| 0 <= k < walls@.len() && walls@[k] == wall_pos;
            let (turn_point_1, turn_point_2, adjacent_cell_direction) = get_turn_waypoints(
                direction,
                unit_pos,
                &wall_pos,
            );
            if both_points_free(walls, &turn_point_1, &turn_point_2) {
                let turn_vec = get_velocity_vec(&adjacent_cell_direction, STEP);
                Some(Pos { x: unit_pos.x + turn_vec.x, y: unit_pos.y + turn_vec.y })
            } else {
                None
            }
        },
    }
}

/// What `spec_find_blocking` yields: a found wall is a wall of the set and
/// overlaps the probed point; finding none means the point is free.
proof fn lemma_find_blocking_result(walls: Seq<Pos>, p: Pos)
    ensures
        spec_find_blocking(walls, p) matches Some(w) ==> walls.contains(w) && spec_overlaps(p, w),
        spec_find_blocking(walls, p) is None ==> spec_point_free(walls, p),
    decreases walls.len(),
{
    if walls.len() == 0 {
    } else if spec_overlaps(p, walls[0]) {
        assert(walls.contains(walls[0]));
    } else {
        lemma_find_blocking_result(walls.drop_first(), p);
        match spec_find_blocking(walls, p) {
            Some(w) => {
                assert(walls.drop_first().contains(w));
                let k = choose|k: int|
                    0 <= k < walls.drop_first().len() && walls.drop_first()[k] == w;
                assert(walls[k + 1] == w);
                assert(walls.contains(w));
            },
            None => {
                assert forall|i: int| 0 <= i < walls.len() implies !spec_overlaps(
                    p,
                    #[trigger] walls[i],
                ) by {
                    if i > 0 {
                        assert(walls.drop_first()[i - 1] == walls[i]);
                    }
                }
            },
        }
    }
}

/// Containment: an entity that overlaps no wall never commits a position
/// that overlaps a wall, neither by the straight step nor by the
/// corner-assist turn.
pub proof fn lemma_movement_containment(u: Pos, d: Direction, walls: Seq<Pos>, np: Pos)
    requires
        in_world(u),
        forall|i: int| 0 <= i < walls.len() ==> in_world(#[trigger] walls[i]),
        spec_point_free(walls, u),
        spec_move_or_turn(u, d, walls) == Some(np),
    ensures
        spec_point_free(walls, np),
{
    let cand = spec_candidate(u, d);
    lemma_find_blocking_result(walls, cand);
    match spec_find_blocking(walls, cand) {
        None => {
            assert(np == cand);
        },
        Some(w) => {
            let adj = spec_adjacent_direction(d, u, w);
            let (t1, t2) = spec_turn_waypoints(d, u, w);
            assert(spec_point_free(walls, t1) && spec_point_free(walls, t2));
            assert(np == spec_candidate(u, adj));
            let k = choose|k: int| 0 <= k < walls.len() && walls[k] == w;
            assert(in_world(w));
            assert forall|i: int| 0 <= i < walls.len() implies !spec_overlaps(
                np,
                #[trigger] walls[i],
            ) by {
                if spec_overlaps(np, walls[i]) {
                    let v = walls[i];
                    assert(!spec_overlaps(u, v));
                    assert(!spec_overlaps(t1, v));
                    match d {
                        Direction::Left | Direction::Right => {
                            assert(cand.y == u.y);
                            assert(spec_overlaps(cand, w));
                            if adj == Direction::Up {
                                assert(np.x == u.x && np.y == u.y + 2);
                                assert(t1.x == u.x && t1.y == w.y + TILE_WIDTH);
                                assert(false);
                            } else {
                                assert(np.x == u.x && np.y == u.y - 2);
                                assert(t1.x == u.x && t1.y == w.y - TILE_WIDTH);
                                assert(false);
                            }
                        },
                        Direction::Up | Direction::Down => {
                            assert(cand.x == u.x);
                            assert(spec_overlaps(cand, w));
                            if adj == Direction::Right {
                                assert(np.y == u.y && np.x == u.x + 2);
                                assert(t1.y == u.y && t1.x == w.x + TILE_WIDTH);
                                assert(false);
                            } else {
                                assert(np.y == u.y && np.x == u.x - 2);
                                assert(t1.y == u.y && t1.x == w.x - TILE_WIDTH);
                                assert(false);
                            }
                        },
                    }
                }
            }
        },
    }
}

/// Determinism of the corner assist, first half: when the straight step is
/// blocked by `w` and both waypoints of the chosen (nearer) side are free,
/// the entity is redirected one step toward exactly that side,
/// perpendicular to its travel.
pub proof fn lemma_corner_assist_turns(u: Pos, d: Direction, walls: Seq<Pos>, w: Pos)
    requires
        spec_find_blocking(walls, spec_candidate(u, d)) == Some(w),
        spec_point_free(walls, spec_turn_waypoints(d, u, w).0),
        spec_point_free(walls, spec_turn_waypoints(d, u, w).1),
    ensures
        spec_move_or_turn(u, d, walls) == Some(
            spec_candidate(u, spec_adjacent_direction(d, u, w)),
        ),
        dir_dx(spec_adjacent_direction(d, u, w)) * dir_dx(d) + dir_dy(
            spec_adjacent_direction(d, u, w),
        ) * dir_dy(d) == 0,
{
    let adj = spec_adjacent_direction(d, u, w);
    match d {
        Direction::Left | Direction::Right => {
            assert(adj == Direction::Up || adj == Direction::Down);
            assert(dir_dy(d) == 0 && dir_dx(adj) == 0);
        },
        Direction::Up | Direction::Down => {
            assert(adj == Direction::Left || adj == Direction::Right);
            assert(dir_dx(d) == 0 && dir_dy(adj) == 0);
        },
    }
}

/// Determinism of the corner assist, second half: when the straight step is
/// blocked and a wall covers one of the chosen side's waypoints, the entity
/// is never redirected: it does not move at all this tick.
pub proof fn lemma_corner_assist_stays(u: Pos, d: Direction, walls: Seq<Pos>, w: Pos)
    requires
        spec_find_blocking(walls, spec_candidate(u, d)) == Some(w),
        !(spec_point_free(walls, spec_turn_waypoints(d, u, w).0) && spec_point_free(
            walls,
            spec_turn_waypoints(d, u, w).1,
        )),
    ensures
        spec_move_or_turn(u, d, walls) is None,
{
}

/// The corner assist's side choice reduces to a plain comparison of the
/// off-axis coordinates: moving horizontally, the entity is redirected up
/// exactly when it sits above the blocking wall's center line (a tie goes
/// down); moving vertically, right exactly when it sits right of the
/// center line (a tie goes left). Both tested waypoints lie on the chosen
/// side, one tile off the wall.
pub proof fn lemma_adjacent_side_choice(d: Direction, u: Pos, w: Pos)
    requires
        in_world(w),
    ensures
        d is Left || d is Right ==> spec_adjacent_direction(d, u, w) == (if u.y > w.y {
            Direction::Up
        } else {
            Direction::Down
        }),
        d is Up || d is Down ==> spec_adjacent_direction(d, u, w) == (if u.x > w.x {
            Direction::Right
        } else {
            Direction::Left
        }),
        d is Left || d is Right ==> {
            let side_y = if u.y > w.y {
                w.y + TILE_WIDTH
            } else {
                w.y - TILE_WIDTH
            };
            spec_turn_waypoints(d, u, w).0.y == side_y && spec_turn_waypoints(d, u, w).1.y
                == side_y
        },
        d is Up || d is Down ==> {
            let side_x = if u.x > w.x {
                w.x + TILE_WIDTH
            } else {
                w.x - TILE_WIDTH
            };
            spec_turn_waypoints(d, u, w).0.x == side_x && spec_turn_waypoints(d, u, w).1.x
                == side_x
        },
{
}

/// The movement state of one player entity.
#[derive(Clone, Copy, PartialEq, Eq, Structural, Debug)]
pub struct PlayerMotion {
    pub position: Pos,
    pub direction: Direction,
    pub velocity: crate::components::Velocity,
}

/// One movement tick for one entity: entities with zero speed stay; moving
/// entities commit what the resolver yields, or stay when it yields nothing.
pub open spec fn spec_player_step(p: PlayerMotion, walls: Seq<Pos>) -> PlayerMotion {
    if p.velocity.current > 0 {
        match spec_move_or_turn(p.position, p.direction, walls) {
            Some(np) => PlayerMotion { position: np, direction: p.direction, velocity: p.velocity },
            None => p,
        }
    } else {
        p
    }
}

/// One movement tick over every player entity.
pub fn player_movement(players: &mut Vec<PlayerMotion>, walls: &Vec<Pos>)
    requires
        forall|i: int|
            0 <= i < old(players)@.len() ==> in_world(#[trigger] old(players)@[i].position),
        forall|i: int| 0 <= i < walls@.len() ==> in_world(#[trigger] walls@[i]),
    ensures
        final(players)@.len() == old(players)@.len(),
        forall|i: int|
            0 <= i < old(players)@.len() ==> final(players)@[i] == spec_player_step(
                #[trigger] old(players)@[i],
                walls@,
            ),
        forall|i: int|
            0 <= i < old(players)@.len() && spec_point_free(
                walls@,
                (#[trigger] old(players)@[i]).position,
            ) ==> spec_point_free(walls@, final(players)@[i].position),
{
    proof {
        assert forall|i: int|
            0 <= i < old(players)@.len() && spec_point_free(
                walls@,
                (#[trigger] old(players)@[i]).position,
            ) implies spec_point_free(
            walls@,
            spec_player_step(old(players)@[i], walls@).position,
        ) by {
            let p = old(players)@[i];
            if p.velocity.current > 0 {
                match spec_move_or_turn(p.position, p.direction, walls@) {
                    Some(np) => {
                        lemma_movement_containment(p.position, p.direction, walls@, np);
                    },
                    None => {},
                }
            }
        }
    }
    let mut out: Vec<PlayerMotion> = Vec::new();
    let mut i: usize = 0;
    while i < players.len()
        invariant
            0 <= i <= players@.len(),
            players@ == old(players)@,
            out@.len() == i,
            forall|j: int|
                0 <= j < i ==> out@[j] == spec_player_step(#[trigger] players@[j], walls@),
            forall|j: int|
                0 <= j < players@.len() ==> in_world(#[trigger] players@[j].position),
            forall|j: int| 0 <= j < walls@.len() ==> in_world(#[trigger] walls@[j]),
        decreases players@.len() - i,
    {
        let p = players[i];
        if p.velocity.current > 0 {
            match move_or_turn(&p.position, &p.direction, walls) {
                Some(new_pos) => {
                    out.push(
                        PlayerMotion {
                            position: new_pos,
                            direction: p.direction,
                            velocity: p.velocity,
                        },
                    );
                },
                None => {
                    out.push(p);
                },
            }
        } else {
            out.push(p);
        }
        i = i + 1;
    }
    *players = out;
}

/// The four direction-key signals, sampled once per tick.
#[derive(Clone, Copy, PartialEq, Eq, Structural, Debug)]
pub struct DirectionalInput {
    pub left: bool,
    pub down: bool,
    pub up: bool,
    pub right: bool,
}

/// The direction the held keys select, with a fixed priority order.
pub open spec fn spec_input_direction(input: DirectionalInput) -> Option<Direction> {
    if input.left {
        Some(Direction::Left)
    } else if input.down {
        Some(Direction::Down)
    } else if input.up {
        Some(Direction::Up)
    } else if input.right {
        Some(Direction::Right)
    } else {
        None
    }
}

/// The per-tick direction and velocity update: a held direction key turns
/// the entity that way and snaps its speed to the maximum; no key held
/// snaps the speed to zero. Speed is binary, never an intermediate value.
pub fn change_direction(input: &DirectionalInput, direction: &mut Direction, velocity: &mut Velocity)
    ensures
        final(velocity).max == old(velocity).max,
        match spec_input_direction(*input) {
            Some(d) => *final(direction) == d && final(velocity).current == old(velocity).max,
            None => *final(direction) == *old(direction) && final(velocity).current == 0,
        },
{
    let movement_action = if input.left {
        Some(Direction::Left)
    } else if input.down {
        Some(Direction::Down)
    } else if input.up {
        Some(Direction::Up)
    } else if input.right {
        Some(Direction::Right)
    } else {
        None
    };
    match movement_action {
        Some(dir) => {
            *direction = dir;
            velocity.current = velocity.max;
        },
        None => {
            velocity.current = 0;
        },
    }
}

} // verus!
