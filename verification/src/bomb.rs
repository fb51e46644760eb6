//! Bomb placement snapping, the explosion propagator and the destruction
//! resolver.
//!
//! A detonation walks outward from its origin in the four cardinal
//! directions, up to the bomb's power in tiles, stopping a direction
//! entirely at the first tile whose map code blocks blasts. Each reached
//! tile gets a timed edge blast cell; the origin keeps the longer-lived
//! center cell.

use vstd::prelude::*;
use crate::components::{
    CountdownTimer, Destructible, Direction, Ember, Fire, Buff, EMBER_LIFETIME_MS,
    FIRE_LIFETIME_MS,
};
use crate::geometry::{Pos, TILE_WIDTH, WORLD_LIMIT, in_world, spec_overlaps, vecs_xy_intersect};
use crate::map::{GameMap, map_wf, spec_open_for_blast};
use crate::movement::{dir_dx, dir_dy};

verus! {

/// Largest bomb power the engine accepts; keeps blast-cell coordinates in
/// machine range.
pub const MAX_POWER: i32 = 1_000_000;

// ---------------------------------------------------------------------------
// Placement snapping
// ---------------------------------------------------------------------------

/// Where a bomb dropped at coordinate `v` lands: the nearest tile-aligned
/// coordinate, rounding half a tile up; below zero the fractional part is
/// taken toward zero, so such coordinates snap to the floor tile.
pub open spec fn spec_snap_coord(v: int) -> int {
    if v >= 0 && v % (TILE_WIDTH as int) * 2 >= TILE_WIDTH {
        (v / (TILE_WIDTH as int) + 1) * TILE_WIDTH
    } else {
        v / (TILE_WIDTH as int) * TILE_WIDTH
    }
}

/// Snaps one coordinate to the placement grid.
pub fn snap_coord(v: i32) -> (r: i32)
    requires
        -WORLD_LIMIT <= v <= WORLD_LIMIT,
    ensures
        r == spec_snap_coord(v as int),
        v - TILE_WIDTH < r <= v + TILE_WIDTH,
{
    proof {
        vstd::arithmetic::div_mod::lemma_fundamental_div_mod(v as int, TILE_WIDTH as int);
        vstd::arithmetic::div_mod::lemma_mod_bound(v as int, TILE_WIDTH as int);
    }
    if v >= 0 {
        let q = v / TILE_WIDTH;
        let rem = v % TILE_WIDTH;
        if rem * 2 >= TILE_WIDTH {
            (q + 1) * TILE_WIDTH
        } else {
            q * TILE_WIDTH
        }
    } else {
        let m = -v;
        let qq = m / TILE_WIDTH;
        let rr = m % TILE_WIDTH;
        if rr == 0 {
            proof {
                vstd::arithmetic::div_mod::lemma_fundamental_div_mod(m as int, TILE_WIDTH as int);
                vstd::arithmetic::div_mod::lemma_fundamental_div_mod_converse(
                    v as int,
                    TILE_WIDTH as int,
                    -(qq as int),
                    0,
                );
            }
            -(qq * TILE_WIDTH)
        } else {
            proof {
                vstd::arithmetic::div_mod::lemma_fundamental_div_mod(m as int, TILE_WIDTH as int);
                vstd::arithmetic::div_mod::lemma_fundamental_div_mod_converse(
                    v as int,
                    TILE_WIDTH as int,
                    -(qq as int) - 1,
                    TILE_WIDTH - rr,
                );
            }
            -((qq + 1) * TILE_WIDTH)
        }
    }
}

/// The placement cell for a player standing at `p`: both axes snapped.
pub open spec fn spec_snap_pos(p: Pos) -> Pos {
    Pos { x: spec_snap_coord(p.x as int) as i32, y: spec_snap_coord(p.y as int) as i32 }
}

/// Snaps a continuous position to the placement grid.
pub fn snap_position(p: &Pos) -> (r: Pos)
    requires
        in_world(*p),
    ensures
        r == spec_snap_pos(*p),
{
    Pos { x: snap_coord(p.x), y: snap_coord(p.y) }
}

// ---------------------------------------------------------------------------
// Explosion propagation
// ---------------------------------------------------------------------------

/// One edge blast cell: its tile position, the direction it extends and
/// whether it is the outermost cell of its ray (sprite selection only).
#[derive(Clone, Copy, PartialEq, Eq, Structural, Debug)]
pub struct EmberCell {
    pub position: Pos,
    pub direction: Direction,
    pub is_end: bool,
}

/// The tile `i` steps out from `origin` along `d`.
pub open spec fn spec_ray_cell(origin: Pos, d: Direction, i: int) -> Pos {
    Pos {
        x: (origin.x + i * TILE_WIDTH * dir_dx(d)) as i32,
        y: (origin.y + i * TILE_WIDTH * dir_dy(d)) as i32,
    }
}

/// How far a blast of power `n` reaches along `d`: the length of the
/// contiguous open prefix of tiles at distances 1..=n.
pub open spec fn spec_ray_len(m: GameMap, origin: Pos, d: Direction, n: int) -> int
    decreases n,
{
    if n <= 0 {
        0
    } else {
        let prev = spec_ray_len(m, origin, d, n - 1);
        if prev == n - 1 && spec_open_for_blast(m, spec_ray_cell(origin, d, n)) {
            n
        } else {
            prev
        }
    }
}

/// The edge cells one detonation creates along `d`: one per reached tile,
/// the outermost cell actually created flagged as the terminal cap (so a
/// ray cut early by a wall still ends in a cap).
pub open spec fn spec_blast_ray(m: GameMap, origin: Pos, d: Direction, power: int) -> Seq<
    EmberCell,
> {
    Seq::new(
        spec_ray_len(m, origin, d, power) as nat,
        |j: int|
            EmberCell {
                position: spec_ray_cell(origin, d, j + 1),
                direction: d,
                is_end: j + 1 == spec_ray_len(m, origin, d, power),
            },
    )
}

/// All edge cells of one detonation: the four rays, up, down, left, right.
pub open spec fn spec_ember_cells(m: GameMap, origin: Pos, power: int) -> Seq<EmberCell> {
    spec_blast_ray(m, origin, Direction::Up, power) + spec_blast_ray(
        m,
        origin,
        Direction::Down,
        power,
    ) + spec_blast_ray(m, origin, Direction::Left, power) + spec_blast_ray(
        m,
        origin,
        Direction::Right,
        power,
    )
}

/// A blocked ray never grows again: once the tile at distance `i` is
/// blocked (with all nearer tiles open), the reach stays `i - 1`.
proof fn lemma_ray_len_stops(m: GameMap, origin: Pos, d: Direction, i: int, n: int)
    requires
        1 <= i <= n,
        spec_ray_len(m, origin, d, i - 1) == i - 1,
        !spec_open_for_blast(m, spec_ray_cell(origin, d, i)),
    ensures
        spec_ray_len(m, origin, d, n) == i - 1,
    decreases n,
{
    if n > i {
        lemma_ray_len_stops(m, origin, d, i, n - 1);
    }
}

/// The reach never exceeds the power, and every reached tile is open.
proof fn lemma_ray_len_props(m: GameMap, origin: Pos, d: Direction, n: int)
    ensures
        0 <= spec_ray_len(m, origin, d, n) <= (if n >= 0 { n } else { 0 }),
        forall|k: int|
            1 <= k <= spec_ray_len(m, origin, d, n) ==> spec_open_for_blast(
                m,
                #[trigger] spec_ray_cell(origin, d, k),
            ),
        spec_ray_len(m, origin, d, n) < n ==> spec_ray_len(m, origin, d, n) == spec_ray_len(
            m,
            origin,
            d,
            n - 1,
        ),
    decreases n,
{
    if n > 0 {
        lemma_ray_len_props(m, origin, d, n - 1);
    }
}

/// The tile `i` steps out from `origin` along `d`, as executable code.
fn ray_cell(origin: &Pos, d: Direction, i: i32) -> (r: Pos)
    requires
        in_world(*origin),
        1 <= i <= MAX_POWER,
    ensures
        r == spec_ray_cell(*origin, d, i as int),
{
    let step = i * TILE_WIDTH;
    match d {
        Direction::Up => {
            proof {
                assert(dir_dx(d) == 0 && dir_dy(d) == 1);
            }
            Pos { x: origin.x, y: origin.y + step }
        },
        Direction::Down => {
            proof {
                assert(dir_dx(d) == 0 && dir_dy(d) == -1);
            }
            Pos { x: origin.x, y: origin.y - step }
        },
        Direction::Left => {
            proof {
                assert(dir_dx(d) == -1 && dir_dy(d) == 0);
            }
            Pos { x: origin.x - step, y: origin.y }
        },
        Direction::Right => {
            proof {
                assert(dir_dx(d) == 1 && dir_dy(d) == 0);
            }
            Pos { x: origin.x + step, y: origin.y }
        },
    }
}

/// One ray of the propagation: walks outward from `origin` along `d`,
/// creating an edge cell per open tile, and stops the whole direction at
/// the first blocking tile.
fn blast_ray(map: &GameMap, origin: &Pos, d: Direction, power: i32) -> (r: Vec<EmberCell>)
    requires
        map_wf(*map),
        in_world(*origin),
        power <= MAX_POWER,
    ensures
        r@ == spec_blast_ray(*map, *origin, d, power as int),
{
    let mut out: Vec<EmberCell> = Vec::new();
    let mut i: i32 = 1;
    let mut blocked = false;
    while i <= power && !blocked
        invariant
            map_wf(*map),
            in_world(*origin),
            power <= MAX_POWER,
            1 <= i,
            power >= 1 ==> i <= power + 1,
            power < 1 ==> i == 1,
            spec_ray_len(*map, *origin, d, i - 1) == i - 1,
            blocked ==> spec_ray_len(*map, *origin, d, power as int) == i - 1,
            out@.len() == i - 1,
            forall|j: int|
                0 <= j < i - 1 ==> out@[j] == (EmberCell {
                    position: spec_ray_cell(*origin, d, j + 1),
                    direction: d,
                    is_end: false,
                }),
        decreases power + 1 - i, (if blocked {
            0int
        } else {
            1int
        }),
    {
        let cell = ray_cell(origin, d, i);
        if map.open_for_blast(&cell) {
            out.push(EmberCell { position: cell, direction: d, is_end: false });
            proof {
                assert(spec_ray_len(*map, *origin, d, i as int) == i as int);
            }
            i = i + 1;
        } else {
            proof {
                lemma_ray_len_stops(*map, *origin, d, i as int, power as int);
            }
            blocked = true;
        }
    }
    proof {
        if !blocked {
            assert(spec_ray_len(*map, *origin, d, power as int) == if power >= 1 {
                power as int
            } else {
                0int
            });
        }
        assert(out@.len() == spec_ray_len(*map, *origin, d, power as int));
    }
    if out.len() > 0 {
        let k = out.len() - 1;
        let last = out[k];
        out[k] = EmberCell { position: last.position, direction: last.direction, is_end: true };
    }
    proof {
        assert(out@ =~= spec_blast_ray(*map, *origin, d, power as int));
    }
    out
}

/// The full propagation step of one detonation: the edge cells of all four
/// rays, in the order up, down, left, right.
pub fn ember_cells(map: &GameMap, origin: &Pos, power: i32) -> (r: Vec<EmberCell>)
    requires
        map_wf(*map),
        in_world(*origin),
        power <= MAX_POWER,
    ensures
        r@ == spec_ember_cells(*map, *origin, power as int),
{
    let mut out = blast_ray(map, origin, Direction::Up, power);
    let mut down = blast_ray(map, origin, Direction::Down, power);
    let mut left = blast_ray(map, origin, Direction::Left, power);
    let mut right = blast_ray(map, origin, Direction::Right, power);
    out.append(&mut down);
    out.append(&mut left);
    out.append(&mut right);
    out
}

/// The propagation bound: a detonation of power `p` never creates an edge
/// cell more than `p` tiles out along any direction; the
/// `j`-th cell of a ray sits exactly `j + 1` tiles out; and every reached
/// tile is open, so no cell lies on or past the first blocking tile.
pub proof fn lemma_detonation_propagation_bound(m: GameMap, origin: Pos, power: int, d: Direction)
    ensures
        spec_blast_ray(m, origin, d, power).len() <= (if power >= 0 { power } else { 0 }),
        forall|j: int|
            0 <= j < spec_blast_ray(m, origin, d, power).len() ==> (#[trigger] spec_blast_ray(
                m,
                origin,
                d,
                power,
            )[j]).position == spec_ray_cell(origin, d, j + 1),
        forall|k: int|
            1 <= k <= spec_blast_ray(m, origin, d, power).len() ==> spec_open_for_blast(
                m,
                #[trigger] spec_ray_cell(origin, d, k),
            ),
{
    lemma_ray_len_props(m, origin, d, power);
}

// ---------------------------------------------------------------------------
// Blast-cell lifetime
// ---------------------------------------------------------------------------

/// What kind of blast cell a fire entity is: the center cell carries the
/// delayed propagation trigger; an edge cell carries its sprite tags.
#[derive(Clone, Copy, PartialEq, Eq, Structural, Debug)]
pub enum FireKind {
    Center { ember: Ember },
    Edge { direction: Direction, is_end: bool },
}

/// One live blast cell: a position, its lifetime countdown and its kind.
#[derive(Clone, Copy, PartialEq, Eq, Structural, Debug)]
pub struct FireEntity {
    pub position: Pos,
    pub fire: Fire,
    pub kind: FireKind,
}

impl FireEntity {
    /// The center cell of a fresh detonation, carrying its power.
    pub fn center(position: Pos, power: i32) -> (r: Self)
        ensures
            r.position == position,
            r.fire.0.remaining_ms == FIRE_LIFETIME_MS,
            r.kind matches FireKind::Center { ember } && ember.1 == power
                && ember.0.remaining_ms == crate::components::EMBER_START_TIME_MS,
    {
        FireEntity { position, fire: Fire::new(), kind: FireKind::Center { ember: Ember::new(power) } }
    }

    /// An edge cell created by propagation.
    pub fn edge(cell: &EmberCell) -> (r: Self)
        ensures
            r.position == cell.position,
            r.fire.0.remaining_ms == EMBER_LIFETIME_MS,
            r.kind == (FireKind::Edge { direction: cell.direction, is_end: cell.is_end }),
    {
        FireEntity {
            position: cell.position,
            fire: Fire::ember(),
            kind: FireKind::Edge { direction: cell.direction, is_end: cell.is_end },
        }
    }
}

/// A fire after `dt` elapses.
pub open spec fn spec_ticked_fire(f: FireEntity, dt: u32) -> FireEntity {
    FireEntity {
        fire: Fire(
            CountdownTimer {
                remaining_ms: crate::components::spec_count_down(f.fire.0.remaining_ms, dt),
            },
        ),
        ..f
    }
}

/// The blast cells surviving a tick of `dt`: every cell's countdown
/// advances, and exactly the cells whose lifetime ran out are removed.
pub open spec fn spec_despawn_fires(fires: Seq<FireEntity>, dt: u32) -> Seq<FireEntity>
    decreases fires.len(),
{
    if fires.len() == 0 {
        Seq::empty()
    } else {
        let rest = spec_despawn_fires(fires.drop_first(), dt);
        if fires[0].fire.0.remaining_ms > dt {
            seq![spec_ticked_fire(fires[0], dt)] + rest
        } else {
            rest
        }
    }
}

/// Unfolds `spec_despawn_fires` around a processed prefix.
proof fn lemma_despawn_fires_skip(fires: Seq<FireEntity>, dt: u32, i: int)
    requires
        0 <= i < fires.len(),
    ensures
        spec_despawn_fires(fires.skip(i), dt) == if fires[i].fire.0.remaining_ms > dt {
            seq![spec_ticked_fire(fires[i], dt)] + spec_despawn_fires(fires.skip(i + 1), dt)
        } else {
            spec_despawn_fires(fires.skip(i + 1), dt)
        },
{
    assert(fires.skip(i).drop_first() =~= fires.skip(i + 1));
    assert(fires.skip(i)[0] == fires[i]);
}

/// One lifetime tick over every blast cell: advance each countdown by `dt`
/// and despawn the cells that have run out. No other effect: destruction of
/// overlapping entities is the destruction resolver's job.
pub fn despawn_fire(fires: &mut Vec<FireEntity>, dt: u32)
    ensures
        final(fires)@ == spec_despawn_fires(old(fires)@, dt),
{
    let ghost orig = fires@;
    let mut out: Vec<FireEntity> = Vec::new();
    let mut i: usize = 0;
    proof {
        assert(orig.skip(0) =~= orig);
        assert(Seq::<FireEntity>::empty() + spec_despawn_fires(orig, dt) =~= spec_despawn_fires(
            orig,
            dt,
        ));
    }
    while i < fires.len()
        invariant
            fires@ == orig,
            0 <= i <= orig.len(),
            out@ + spec_despawn_fires(orig.skip(i as int), dt) == spec_despawn_fires(orig, dt),
        decreases orig.len() - i,
    {
        proof {
            lemma_despawn_fires_skip(orig, dt, i as int);
        }
        let f = fires[i];
        if f.fire.0.remaining_ms > dt {
            let ticked = FireEntity {
                position: f.position,
                fire: Fire(CountdownTimer { remaining_ms: f.fire.0.remaining_ms - dt }),
                kind: f.kind,
            };
            proof {
                assert(ticked == spec_ticked_fire(orig[i as int], dt));
                assert(out@.push(ticked) + spec_despawn_fires(orig.skip(i as int + 1), dt)
                    =~= out@ + spec_despawn_fires(orig.skip(i as int), dt));
            }
            out.push(ticked);
        }
        i = i + 1;
    }
    proof {
        assert(orig.skip(orig.len() as int) =~= Seq::<FireEntity>::empty());
        assert(out@ + Seq::<FireEntity>::empty() =~= out@);
    }
    *fires = out;
}

/// Self-cleanup of blast cells: after a tick, no surviving cell has an
/// expired countdown, and once `dt` reaches every cell's remaining
/// lifetime, no cell at all survives; a created cell is therefore removed
/// by the first tick that exhausts its lifetime.
pub proof fn lemma_blast_cell_cleanup(fires: Seq<FireEntity>, dt: u32)
    ensures
        forall|j: int|
            0 <= j < spec_despawn_fires(fires, dt).len() ==> (#[trigger] spec_despawn_fires(
                fires,
                dt,
            )[j]).fire.0.remaining_ms > 0,
        (forall|i: int|
            0 <= i < fires.len() ==> (#[trigger] fires[i]).fire.0.remaining_ms <= dt)
            ==> spec_despawn_fires(fires, dt).len() == 0,
        spec_despawn_fires(fires, dt).len() <= fires.len(),
    decreases fires.len(),
{
    if fires.len() > 0 {
        lemma_blast_cell_cleanup(fires.drop_first(), dt);
        assert(forall|i: int|
            0 <= i < fires.drop_first().len() ==> #[trigger] fires.drop_first()[i] == fires[i + 1]);
    }
}

/// Every surviving cell is the ticked version of some input cell.
pub proof fn lemma_despawn_fires_sources(fires: Seq<FireEntity>, dt: u32)
    ensures
        forall|j: int|
            0 <= j < spec_despawn_fires(fires, dt).len() ==> exists|i: int|
                0 <= i < fires.len() && #[trigger] spec_despawn_fires(fires, dt)[j]
                    == spec_ticked_fire(fires[i], dt),
    decreases fires.len(),
{
    if fires.len() > 0 {
        lemma_despawn_fires_sources(fires.drop_first(), dt);
        let rest = spec_despawn_fires(fires.drop_first(), dt);
        let out = spec_despawn_fires(fires, dt);
        assert forall|i: int|
            0 <= i < fires.drop_first().len() implies #[trigger] fires.drop_first()[i] == fires[i
            + 1] by {}
        assert forall|j: int| 0 <= j < out.len() implies exists|i: int|
            0 <= i < fires.len() && #[trigger] out[j] == spec_ticked_fire(fires[i], dt) by {
            if fires[0].fire.0.remaining_ms > dt {
                if j == 0 {
                    assert(out[0] == spec_ticked_fire(fires[0], dt));
                } else {
                    assert(out[j] == rest[j - 1]);
                    let i0 = choose|i0: int|
                        0 <= i0 < fires.drop_first().len() && rest[j - 1] == spec_ticked_fire(
                            fires.drop_first()[i0],
                            dt,
                        );
                    assert(out[j] == spec_ticked_fire(fires[i0 + 1], dt));
                }
            } else {
                assert(out[j] == rest[j]);
                let i0 = choose|i0: int|
                    0 <= i0 < fires.drop_first().len() && rest[j] == spec_ticked_fire(
                        fires.drop_first()[i0],
                        dt,
                    );
                assert(out[j] == spec_ticked_fire(fires[i0 + 1], dt));
            }
        }
    }
}

// ---------------------------------------------------------------------------
// Destruction resolution
// ---------------------------------------------------------------------------

/// An entity a blast can destroy: a terrain box or portal box, with the
/// outcome variant applied when it is destroyed.
#[derive(Clone, Copy, PartialEq, Eq, Structural, Debug)]
pub struct DestructibleEntity {
    pub position: Pos,
    pub kind: Destructible,
}

/// A buff pickup lying on the floor.
#[derive(Clone, Copy, PartialEq, Eq, Structural, Debug)]
pub struct BuffEntity {
    pub position: Pos,
    pub kind: Buff,
}

/// True iff some live blast cell overlaps the box at `p`.
pub open spec fn spec_hit_by_fire(p: Pos, fires: Seq<Pos>) -> bool {
    exists|i: int| 0 <= i < fires.len() && spec_overlaps(#[trigger] fires[i], p)
}

/// Everything one destruction pass produces: the entities that survive,
/// the pickups and portals revealed, and how many defeat events fired.
pub struct DestructionOutcome {
    pub survivors: Vec<DestructibleEntity>,
    pub buffs: Vec<BuffEntity>,
    pub portals: Vec<Pos>,
    pub defeats: usize,
}

/// The pickup (or portal) revealed when a destructible of kind `k` at `p`
/// is destroyed; plain boxes, players and creatures reveal nothing.
pub open spec fn spec_reveals_buff(k: Destructible, p: Pos) -> Option<BuffEntity> {
    match k {
        Destructible::PowerBuffBox => Some(BuffEntity { position: p, kind: Buff::PowerBuff }),
        Destructible::SpeedBuffBox => Some(BuffEntity { position: p, kind: Buff::SpeedBuff }),
        Destructible::BombNumberBuffBox => Some(
            BuffEntity { position: p, kind: Buff::BombNumberBuff },
        ),
        _ => None,
    }
}

/// The destruction pass over a list of destructibles, as a spec: survivors
/// keep their order; each destroyed box contributes its reveal; each
/// destroyed `Player` entity contributes one defeat event.
pub open spec fn spec_destruction(dests: Seq<DestructibleEntity>, fires: Seq<Pos>) -> (
    Seq<DestructibleEntity>,
    Seq<BuffEntity>,
    Seq<Pos>,
    int,
)
    decreases dests.len(),
{
    if dests.len() == 0 {
        (Seq::empty(), Seq::empty(), Seq::empty(), 0)
    } else {
        let (s, b, p, g) = spec_destruction(dests.drop_first(), fires);
        let d0 = dests[0];
        if spec_hit_by_fire(d0.position, fires) {
            let b2 = match spec_reveals_buff(d0.kind, d0.position) {
                Some(buff) => seq![buff] + b,
                None => b,
            };
            let p2 = if d0.kind == Destructible::Portal {
                seq![d0.position] + p
            } else {
                p
            };
            let g2 = if d0.kind == Destructible::Player {
                g + 1
            } else {
                g
            };
            (s, b2, p2, g2)
        } else {
            (seq![d0] + s, b, p, g)
        }
    }
}

/// Unfolds `spec_destruction` around a processed prefix.
proof fn lemma_destruction_skip(dests: Seq<DestructibleEntity>, fires: Seq<Pos>, i: int)
    requires
        0 <= i < dests.len(),
    ensures
        spec_destruction(dests.skip(i), fires) == {
            let (s, b, p, g) = spec_destruction(dests.skip(i + 1), fires);
            let d0 = dests[i];
            if spec_hit_by_fire(d0.position, fires) {
                let b2 = match spec_reveals_buff(d0.kind, d0.position) {
                    Some(buff) => seq![buff] + b,
                    None => b,
                };
                let p2 = if d0.kind == Destructible::Portal {
                    seq![d0.position] + p
                } else {
                    p
                };
                let g2 = if d0.kind == Destructible::Player {
                    g + 1
                } else {
                    g
                };
                (s, b2, p2, g2)
            } else {
                (seq![d0] + s, b, p, g)
            }
        },
{
    assert(dests.skip(i).drop_first() =~= dests.skip(i + 1));
    assert(dests.skip(i)[0] == dests[i]);
}

/// True iff some fire position in `fires` overlaps the box at `p`.
pub fn hit_by_fire(p: &Pos, fires: &Vec<Pos>) -> (r: bool)
    ensures
        r == spec_hit_by_fire(*p, fires@),
{
    let mut i: usize = 0;
    while i < fires.len()
        invariant
            0 <= i <= fires@.len(),
            forall|j: int| 0 <= j < i ==> !spec_overlaps(#[trigger] fires@[j], *p),
        decreases fires@.len() - i,
    {
        if vecs_xy_intersect(&fires[i], p) {
            return true;
        }
        i = i + 1;
    }
    false
}

/// The destruction resolver: every destructible entity overlapped by a
/// live blast cell is destroyed and its outcome variant applied; box kinds
/// reveal their pickup or portal, a destroyed player fires one defeat
/// event, plain boxes and creatures are removed with no further effect.
/// One blast cell may destroy several entities in one pass.
pub fn bomb_destruction(dests: &Vec<DestructibleEntity>, fires: &Vec<Pos>) -> (r:
    DestructionOutcome)
    ensures
        ({
            let (s, b, p, g) = spec_destruction(dests@, fires@);
            r.survivors@ == s && r.buffs@ == b && r.portals@ == p && r.defeats == g
        }),
{
    let ghost orig = dests@;
    let ghost full = spec_destruction(orig, fires@);
    let mut survivors: Vec<DestructibleEntity> = Vec::new();
    let mut buffs: Vec<BuffEntity> = Vec::new();
    let mut portals: Vec<Pos> = Vec::new();
    let mut defeats: usize = 0;
    let mut i: usize = 0;
    proof {
        assert(orig.skip(0) =~= orig);
    }
    while i < dests.len()
        invariant
            dests@ == orig,
            0 <= i <= orig.len(),
            defeats <= i,
            ({
                let (s, b, p, g) = spec_destruction(orig.skip(i as int), fires@);
                full == ((survivors@ + s, buffs@ + b, portals@ + p, defeats + g))
            }),
        decreases orig.len() - i,
    {
        proof {
            lemma_destruction_skip(orig, fires@, i as int);
        }
        let d = dests[i];
        if hit_by_fire(&d.position, fires) {
            match d.kind {
                Destructible::NormalBox => {},
                Destructible::PowerBuffBox => {
                    buffs.push(BuffEntity { position: d.position, kind: Buff::PowerBuff });
                },
                Destructible::SpeedBuffBox => {
                    buffs.push(BuffEntity { position: d.position, kind: Buff::SpeedBuff });
                },
                Destructible::BombNumberBuffBox => {
                    buffs.push(BuffEntity { position: d.position, kind: Buff::BombNumberBuff });
                },
                Destructible::Portal => {
                    portals.push(d.position);
                },
                Destructible::Player => {
                    defeats = defeats + 1;
                },
                Destructible::Creature => {},
            }
        } else {
            survivors.push(d);
        }
        proof {
            let (s2, b2, p2, g2) = spec_destruction(orig.skip(i as int + 1), fires@);
            assert(survivors@ + s2 =~= full.0);
            assert(buffs@ + b2 =~= full.1);
            assert(portals@ + p2 =~= full.2);
        }
        i = i + 1;
    }
    proof {
        assert(orig.skip(orig.len() as int) =~= Seq::<DestructibleEntity>::empty());
        assert(survivors@ + Seq::<DestructibleEntity>::empty() =~= survivors@);
        assert(buffs@ + Seq::<BuffEntity>::empty() =~= buffs@);
        assert(portals@ + Seq::<Pos>::empty() =~= portals@);
    }
    DestructionOutcome { survivors, buffs, portals, defeats }
}

} // verus!
