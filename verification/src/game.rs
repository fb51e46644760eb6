//! The running level: its entity set and the per-tick systems over it.
//!
//! The central invariant is the bomb accounting: for every player, the
//! `current` counter equals the number of that player's live bombs plus the
//! number of that player's pending refund events, and never exceeds `max`.
//! Placement raises the counter, a detonation turns the bomb into a pending
//! refund, and draining the event queue settles the refund — or drops it
//! silently when the owner is gone.
//!
//! Blast vulnerability rule used here: players and creatures are destroyed
//! by any overlapping blast cell, unconditionally; the destructible list
//! holds terrain boxes (and portal boxes) only, each with its outcome tag.
//! A destroyed player is marked dead rather than removed, which keeps the
//! accounting uniform: dead players take no part in any system, and a
//! refund addressed to one still settles against its (unobservable)
//! counter.

use vstd::prelude::*;
use crate::bomb::{
    BuffEntity, DestructibleEntity, FireEntity, FireKind, MAX_POWER, bomb_destruction,
    spec_destruction, spec_hit_by_fire, spec_snap_pos, snap_position,
};
use crate::components::{Bomb, BombNumber, BombPower, CountdownTimer, Velocity};
use crate::components::Direction;
use crate::geometry::{Pos, in_world, spec_overlaps, vecs_xy_intersect};
use crate::map::{GameMap, map_wf};
use crate::movement::PlayerMotion;
use crate::state::GameState;

verus! {

/// Lifecycle events the systems exchange through a queue drained once per
/// tick: defeat, victory, and the bomb-slot refund carrying the owner.
#[derive(Clone, Copy, PartialEq, Eq, Structural, Debug)]
pub enum GameEvents {
    GameOver,
    Victory,
    RecoveryBombNumber(u32),
}

/// One player: identity, motion state, bomb stats and life flags.
#[derive(Clone, Copy, PartialEq, Eq, Structural, Debug)]
pub struct PlayerEntity {
    pub id: u32,
    pub motion: PlayerMotion,
    pub power: BombPower,
    pub number: BombNumber,
    pub stopped: bool,
    pub alive: bool,
}

/// One roaming creature.
#[derive(Clone, Copy, PartialEq, Eq, Structural, Debug)]
pub struct CreatureEntity {
    pub position: Pos,
    pub direction: Direction,
    pub velocity: Velocity,
}

/// One placed bomb: its fuse and owner, the power copied from the owner at
/// placement time, and its cell. `wall` is set once no player overlaps it,
/// from which moment it blocks movement like a wall.
#[derive(Clone, Copy, PartialEq, Eq, Structural, Debug)]
pub struct BombEntity {
    pub bomb: Bomb,
    pub power: BombPower,
    pub position: Pos,
    pub wall: bool,
}

/// Ceiling on the buffed maximum speed.
pub const MAX_VELOCITY: i32 = 400;

/// How many of the bombs belong to the player `id`.
pub open spec fn count_bombs_of(bombs: Seq<BombEntity>, id: u32) -> int
    decreases bombs.len(),
{
    if bombs.len() == 0 {
        0
    } else {
        count_bombs_of(bombs.drop_first(), id) + if bombs[0].bomb.player == id {
            1int
        } else {
            0int
        }
    }
}

/// How many refund events in the queue name the player `id`.
pub open spec fn count_refunds_of(events: Seq<GameEvents>, id: u32) -> int
    decreases events.len(),
{
    if events.len() == 0 {
        0
    } else {
        count_refunds_of(events.drop_first(), id) + match events[0] {
            GameEvents::RecoveryBombNumber(p) => if p == id {
                1int
            } else {
                0int
            },
            _ => 0int,
        }
    }
}

/// Both counters are counts, hence nonnegative.
pub proof fn lemma_counts_nonneg(bombs: Seq<BombEntity>, events: Seq<GameEvents>, id: u32)
    ensures
        count_bombs_of(bombs, id) >= 0,
        count_refunds_of(events, id) >= 0,
    decreases bombs.len() + events.len(),
{
    if bombs.len() > 0 {
        lemma_counts_nonneg(bombs.drop_first(), events, id);
    } else if events.len() > 0 {
        lemma_counts_nonneg(bombs, events.drop_first(), id);
    }
}

/// Appending one bomb raises exactly its owner's count by one.
pub proof fn lemma_count_bombs_push(bombs: Seq<BombEntity>, b: BombEntity, id: u32)
    ensures
        count_bombs_of(bombs.push(b), id) == count_bombs_of(bombs, id) + if b.bomb.player == id {
            1int
        } else {
            0int
        },
    decreases bombs.len(),
{
    if bombs.len() == 0 {
        assert(bombs.push(b).drop_first() =~= bombs);
    } else {
        lemma_count_bombs_push(bombs.drop_first(), b, id);
        assert(bombs.push(b).drop_first() =~= bombs.drop_first().push(b));
        assert(bombs.push(b)[0] == bombs[0]);
    }
}

/// Appending one event raises exactly the named player's refund count.
pub proof fn lemma_count_refunds_push(events: Seq<GameEvents>, e: GameEvents, id: u32)
    ensures
        count_refunds_of(events.push(e), id) == count_refunds_of(events, id) + match e {
            GameEvents::RecoveryBombNumber(p) => if p == id {
                1int
            } else {
                0int
            },
            _ => 0int,
        },
    decreases events.len(),
{
    if events.len() == 0 {
        assert(events.push(e).drop_first() =~= events);
    } else {
        lemma_count_refunds_push(events.drop_first(), e, id);
        assert(events.push(e).drop_first() =~= events.drop_first().push(e));
        assert(events.push(e)[0] == events[0]);
    }
}

/// Refund counts add up over queue concatenation.
pub proof fn lemma_count_refunds_add(a: Seq<GameEvents>, b: Seq<GameEvents>, id: u32)
    ensures
        count_refunds_of(a + b, id) == count_refunds_of(a, id) + count_refunds_of(b, id),
    decreases a.len(),
{
    if a.len() == 0 {
        assert(a + b =~= b);
    } else {
        lemma_count_refunds_add(a.drop_first(), b, id);
        assert((a + b).drop_first() =~= a.drop_first() + b);
        assert((a + b)[0] == a[0]);
    }
}

/// The per-player part of the level invariant.
pub open spec fn player_wf(p: PlayerEntity, bombs: Seq<BombEntity>, events: Seq<GameEvents>) -> bool {
    &&& p.number.current as int == count_bombs_of(bombs, p.id) + count_refunds_of(events, p.id)
    &&& p.number.current <= p.number.max
    &&& 0 <= p.power.0 <= MAX_POWER
    &&& in_world(p.motion.position)
    &&& 0 <= p.motion.velocity.current <= p.motion.velocity.max <= MAX_VELOCITY
}

/// The running level.
pub struct Game {
    pub map: GameMap,
    pub players: Vec<PlayerEntity>,
    pub creatures: Vec<CreatureEntity>,
    pub walls: Vec<Pos>,
    pub destructibles: Vec<DestructibleEntity>,
    pub bombs: Vec<BombEntity>,
    pub fires: Vec<FireEntity>,
    pub buffs: Vec<BuffEntity>,
    pub portals: Vec<Pos>,
    pub events: Vec<GameEvents>,
    pub game_state: GameState,
    pub physics_active: bool,
}

/// The level invariant: a well-formed map, distinct player identities,
/// consistent bomb accounting for every player, and every position the
/// systems compute with inside the world bound.
pub open spec fn game_wf(g: Game) -> bool {
    &&& map_wf(g.map)
    &&& forall|i: int, j: int|
        0 <= i < g.players@.len() && 0 <= j < g.players@.len() && i != j
            ==> (#[trigger] g.players@[i]).id != (#[trigger] g.players@[j]).id
    &&& forall|i: int|
        0 <= i < g.players@.len() ==> player_wf(#[trigger] g.players@[i], g.bombs@, g.events@)
    &&& forall|i: int|
        0 <= i < g.bombs@.len() ==> in_world((#[trigger] g.bombs@[i]).position) && 0 <= g.bombs@[i].power.0
            <= MAX_POWER
    &&& forall|i: int|
        0 <= i < g.fires@.len() ==> match (#[trigger] g.fires@[i]).kind {
            FireKind::Center { ember } => in_world(g.fires@[i].position) && 0 <= ember.1
                <= MAX_POWER,
            FireKind::Edge { .. } => true,
        }
    &&& forall|i: int| 0 <= i < g.walls@.len() ==> in_world(#[trigger] g.walls@[i])
}

/// The bomb-count invariant: in every well-formed level state, every
/// player's active-bomb counter sits between zero and that player's
/// maximum.
pub proof fn lemma_bomb_count_invariant(g: Game, i: int)
    requires
        game_wf(g),
        0 <= i < g.players@.len(),
    ensures
        0 <= g.players@[i].number.current <= g.players@[i].number.max,
{
    lemma_counts_nonneg(g.bombs@, g.events@, g.players@[i].id);
}

/// Whether some bomb already occupies the cell.
pub open spec fn spec_bomb_at(bombs: Seq<BombEntity>, cell: Pos) -> bool {
    exists|i: int| 0 <= i < bombs.len() && (#[trigger] bombs[i]).position == cell
}

/// Whether the player at `idx` of `players` places a bomb against the
/// given bomb list: the player is alive and not halted, the snapped cell is
/// free, a bomb slot is left, and the cell is inside the world bound (a
/// placement outside it is refused, which keeps every coordinate
/// computation exact).
pub open spec fn spec_can_place_at(
    players: Seq<PlayerEntity>,
    bombs: Seq<BombEntity>,
    idx: int,
) -> bool {
    let p = players[idx];
    let cell = spec_snap_pos(p.motion.position);
    &&& p.alive && !p.stopped
    &&& !spec_bomb_at(bombs, cell)
    &&& p.number.current < p.number.max
    &&& in_world(cell)
}

/// Whether the player at `idx` places a bomb this tick.
pub open spec fn spec_can_place(g: Game, idx: int) -> bool {
    spec_can_place_at(g.players@, g.bombs@, idx)
}

impl Game {
    /// The bomb-placement action for the player at `idx`, fired by the
    /// place-bomb trigger: snap the player's position to the nearest cell;
    /// if no bomb sits there and the player has a slot left, create a bomb
    /// there with the player's current power and count it against the
    /// player. Returns whether a bomb was placed; placing nothing is a
    /// plain no-op, not an error.
    pub fn space_to_set_bomb(&mut self, idx: usize) -> (placed: bool)
        requires
            game_wf(*old(self)),
            idx < old(self).players@.len(),
        ensures
            game_wf(*final(self)),
            placed == spec_can_place(*old(self), idx as int),
            placed ==> {
                let p = old(self).players@[idx as int];
                let cell = spec_snap_pos(p.motion.position);
                &&& final(self).bombs@ == old(self).bombs@.push(
                    BombEntity {
                        bomb: Bomb {
                            timer: CountdownTimer {
                                remaining_ms: crate::components::BOMB_FUSE_MS,
                            },
                            player: p.id,
                        },
                        power: p.power,
                        position: cell,
                        wall: false,
                    },
                )
                &&& final(self).players@ == old(self).players@.update(
                    idx as int,
                    PlayerEntity {
                        number: BombNumber {
                            max: p.number.max,
                            current: (p.number.current + 1) as i32,
                        },
                        ..p
                    },
                )
            },
            !placed ==> final(self).bombs@ == old(self).bombs@ && final(self).players@ == old(
                self,
            ).players@,
            final(self).map == old(self).map,
            final(self).creatures == old(self).creatures,
            final(self).walls == old(self).walls,
            final(self).destructibles == old(self).destructibles,
            final(self).fires == old(self).fires,
            final(self).buffs == old(self).buffs,
            final(self).portals == old(self).portals,
            final(self).events == old(self).events,
            final(self).game_state == old(self).game_state,
            final(self).physics_active == old(self).physics_active,
    {
        let p = self.players[idx];
        let one = snap_position(&p.motion.position);
        let mut is_not_exist = true;
        let mut i: usize = 0;
        while i < self.bombs.len()
            invariant
                0 <= i <= self.bombs@.len(),
                is_not_exist == (forall|j: int| 0 <= j < i ==> (#[trigger] self.bombs@[j]).position != one),
            decreases self.bombs@.len() - i,
        {
            if self.bombs[i].position.x == one.x && self.bombs[i].position.y == one.y {
                proof {
                    assert(self.bombs@[i as int].position == one);
                }
                is_not_exist = false;
            }
            i = i + 1;
        }
        let in_bounds = -crate::geometry::WORLD_LIMIT <= one.x && one.x
            <= crate::geometry::WORLD_LIMIT && -crate::geometry::WORLD_LIMIT <= one.y && one.y
            <= crate::geometry::WORLD_LIMIT;
        if p.alive && !p.stopped && is_not_exist && p.number.current < p.number.max && in_bounds {
            let new_bomb = BombEntity {
                bomb: Bomb::new(p.id),
                power: p.power,
                position: one,
                wall: false,
            };
            self.bombs.push(new_bomb);
            let np = PlayerEntity {
                number: BombNumber { max: p.number.max, current: p.number.current + 1 },
                ..p
            };
            self.players[idx] = np;
            proof {
                let gb = self.bombs@;
                let ge = self.events@;
                assert forall|k: int| 0 <= k < self.players@.len() implies player_wf(
                    #[trigger] self.players@[k],
                    gb,
                    ge,
                ) by {
                    lemma_count_bombs_push(old(self).bombs@, new_bomb, self.players@[k].id);
                    assert(player_wf(old(self).players@[k], old(self).bombs@, ge));
                }
            }
            true
        } else {
            proof {
                if !is_not_exist {
                    let j = choose|j: int|
                        0 <= j < self.bombs@.len() && (#[trigger] self.bombs@[j]).position == one;
                    assert(spec_bomb_at(self.bombs@, one));
                }
            }
            false
        }
    }
}

/// A bomb after `dt` of its fuse elapses.
pub open spec fn spec_ticked_bomb(b: BombEntity, dt: u32) -> BombEntity {
    BombEntity {
        bomb: Bomb {
            timer: CountdownTimer {
                remaining_ms: crate::components::spec_count_down(b.bomb.timer.remaining_ms, dt),
            },
            player: b.bomb.player,
        },
        ..b
    }
}

/// The center blast cell a detonating bomb leaves behind.
pub open spec fn spec_center_fire(b: BombEntity) -> FireEntity {
    FireEntity {
        position: b.position,
        fire: crate::components::Fire(
            CountdownTimer { remaining_ms: crate::components::FIRE_LIFETIME_MS },
        ),
        kind: FireKind::Center {
            ember: crate::components::Ember(
                CountdownTimer { remaining_ms: crate::components::EMBER_START_TIME_MS },
                b.power.0,
            ),
        },
    }
}

/// One fuse tick over a bomb list: every fuse advances by `dt`; a bomb
/// whose fuse runs out is removed and yields its center blast cell and one
/// refund event naming its owner.
pub open spec fn spec_bomb_trigger(bombs: Seq<BombEntity>, dt: u32) -> (
    Seq<BombEntity>,
    Seq<FireEntity>,
    Seq<GameEvents>,
)
    decreases bombs.len(),
{
    if bombs.len() == 0 {
        (Seq::empty(), Seq::empty(), Seq::empty())
    } else {
        let (kept, fires, evs) = spec_bomb_trigger(bombs.drop_first(), dt);
        let tb = spec_ticked_bomb(bombs[0], dt);
        if tb.bomb.timer.remaining_ms == 0 {
            (
                kept,
                seq![spec_center_fire(bombs[0])] + fires,
                seq![GameEvents::RecoveryBombNumber(bombs[0].bomb.player)] + evs,
            )
        } else {
            (seq![tb] + kept, fires, evs)
        }
    }
}

/// A fuse tick moves each owner's count from the bomb list to the refund
/// queue, one for one: the sum is unchanged.
proof fn lemma_bomb_trigger_counts(bombs: Seq<BombEntity>, dt: u32, id: u32)
    ensures
        ({
            let (kept, fires, evs) = spec_bomb_trigger(bombs, dt);
            count_bombs_of(kept, id) + count_refunds_of(evs, id) == count_bombs_of(bombs, id)
        }),
    decreases bombs.len(),
{
    if bombs.len() > 0 {
        lemma_bomb_trigger_counts(bombs.drop_first(), dt, id);
        let (kept, fires, evs) = spec_bomb_trigger(bombs.drop_first(), dt);
        let tb = spec_ticked_bomb(bombs[0], dt);
        if tb.bomb.timer.remaining_ms == 0 {
            let e = GameEvents::RecoveryBombNumber(bombs[0].bomb.player);
            assert((seq![e] + evs).drop_first() =~= evs);
            assert((seq![e] + evs)[0] == e);
        } else {
            assert((seq![tb] + kept).drop_first() =~= kept);
            assert((seq![tb] + kept)[0] == tb);
        }
    }
}

/// Everything a fuse tick yields comes from the ticked bombs: each kept
/// bomb is a ticked input bomb, each new fire the center cell of an input
/// bomb.
proof fn lemma_bomb_trigger_sources(bombs: Seq<BombEntity>, dt: u32)
    ensures
        ({
            let (kept, fires, evs) = spec_bomb_trigger(bombs, dt);
            &&& forall|j: int|
                0 <= j < kept.len() ==> exists|i: int|
                    0 <= i < bombs.len() && #[trigger] kept[j] == spec_ticked_bomb(bombs[i], dt)
            &&& forall|j: int|
                0 <= j < fires.len() ==> exists|i: int|
                    0 <= i < bombs.len() && #[trigger] fires[j] == spec_center_fire(bombs[i])
        }),
    decreases bombs.len(),
{
    if bombs.len() > 0 {
        lemma_bomb_trigger_sources(bombs.drop_first(), dt);
        let (kept, fires, evs) = spec_bomb_trigger(bombs.drop_first(), dt);
        let tb = spec_ticked_bomb(bombs[0], dt);
        assert forall|i: int|
            0 <= i < bombs.drop_first().len() implies #[trigger] bombs.drop_first()[i] == bombs[i
            + 1] by {}
        if tb.bomb.timer.remaining_ms == 0 {
            let nf = spec_center_fire(bombs[0]);
            let nfires = seq![nf] + fires;
            assert forall|j: int| 0 <= j < nfires.len() implies exists|i: int|
                0 <= i < bombs.len() && #[trigger] nfires[j] == spec_center_fire(bombs[i]) by {
                if j == 0 {
                    assert(nfires[0] == spec_center_fire(bombs[0]));
                } else {
                    assert(nfires[j] == fires[j - 1]);
                    let i0 = choose|i0: int|
                        0 <= i0 < bombs.drop_first().len() && fires[j - 1] == spec_center_fire(
                            bombs.drop_first()[i0],
                        );
                    assert(nfires[j] == spec_center_fire(bombs[i0 + 1]));
                }
            }
        } else {
            let nkept = seq![tb] + kept;
            assert forall|j: int| 0 <= j < nkept.len() implies exists|i: int|
                0 <= i < bombs.len() && #[trigger] nkept[j] == spec_ticked_bomb(bombs[i], dt) by {
                if j == 0 {
                    assert(nkept[0] == spec_ticked_bomb(bombs[0], dt));
                } else {
                    assert(nkept[j] == kept[j - 1]);
                    let i0 = choose|i0: int|
                        0 <= i0 < bombs.drop_first().len() && kept[j - 1] == spec_ticked_bomb(
                            bombs.drop_first()[i0],
                            dt,
                        );
                    assert(nkept[j] == spec_ticked_bomb(bombs[i0 + 1], dt));
                }
            }
        }
    }
}

/// Unfolds `spec_bomb_trigger` around a processed prefix.
proof fn lemma_bomb_trigger_skip(bombs: Seq<BombEntity>, dt: u32, i: int)
    requires
        0 <= i < bombs.len(),
    ensures
        spec_bomb_trigger(bombs.skip(i), dt) == ({
            let (kept, fires, evs) = spec_bomb_trigger(bombs.skip(i + 1), dt);
            let tb = spec_ticked_bomb(bombs[i], dt);
            if tb.bomb.timer.remaining_ms == 0 {
                (
                    kept,
                    seq![spec_center_fire(bombs[i])] + fires,
                    seq![GameEvents::RecoveryBombNumber(bombs[i].bomb.player)] + evs,
                )
            } else {
                (seq![tb] + kept, fires, evs)
            }
        }),
{
    assert(bombs.skip(i).drop_first() =~= bombs.skip(i + 1));
    assert(bombs.skip(i)[0] == bombs[i]);
}

impl Game {
    /// One fuse tick: every bomb's fuse advances by `dt`; each bomb whose
    /// fuse ran out detonates, leaving its center blast cell at its cell
    /// and queueing one bomb-slot refund for its owner. A bomb whose owner
    /// is gone still detonates; only its refund will be dropped.
    pub fn bomb_trigger(&mut self, dt: u32)
        requires
            game_wf(*old(self)),
        ensures
            game_wf(*final(self)),
            ({
                let (kept, nfires, nevs) = spec_bomb_trigger(old(self).bombs@, dt);
                &&& final(self).bombs@ == kept
                &&& final(self).fires@ == old(self).fires@ + nfires
                &&& final(self).events@ == old(self).events@ + nevs
            }),
            final(self).map == old(self).map,
            final(self).players == old(self).players,
            final(self).creatures == old(self).creatures,
            final(self).walls == old(self).walls,
            final(self).destructibles == old(self).destructibles,
            final(self).buffs == old(self).buffs,
            final(self).portals == old(self).portals,
            final(self).game_state == old(self).game_state,
            final(self).physics_active == old(self).physics_active,
    {
        let ghost orig = self.bombs@;
        let ghost full = spec_bomb_trigger(orig, dt);
        let mut kept: Vec<BombEntity> = Vec::new();
        let mut new_fires: Vec<FireEntity> = Vec::new();
        let mut new_events: Vec<GameEvents> = Vec::new();
        let mut i: usize = 0;
        proof {
            assert(orig.skip(0) =~= orig);
        }
        while i < self.bombs.len()
            invariant
                self.bombs@ == orig,
                0 <= i <= orig.len(),
                ({
                    let (k, f, e) = spec_bomb_trigger(orig.skip(i as int), dt);
                    full == ((kept@ + k, new_fires@ + f, new_events@ + e))
                }),
            decreases orig.len() - i,
        {
            proof {
                lemma_bomb_trigger_skip(orig, dt, i as int);
            }
            let b = self.bombs[i];
            let remaining = if dt >= b.bomb.timer.remaining_ms {
                0
            } else {
                b.bomb.timer.remaining_ms - dt
            };
            if remaining == 0 {
                new_fires.push(FireEntity::center(b.position, b.power.0));
                new_events.push(GameEvents::RecoveryBombNumber(b.bomb.player));
                proof {
                    let (k2, f2, e2) = spec_bomb_trigger(orig.skip(i as int + 1), dt);
                    assert(new_fires@ + f2 =~= full.1);
                    assert(new_events@ + e2 =~= full.2);
                }
            } else {
                let tb = BombEntity {
                    bomb: Bomb {
                        timer: CountdownTimer { remaining_ms: remaining },
                        player: b.bomb.player,
                    },
                    power: b.power,
                    position: b.position,
                    wall: b.wall,
                };
                proof {
                    assert(tb == spec_ticked_bomb(orig[i as int], dt));
                }
                kept.push(tb);
                proof {
                    let (k2, f2, e2) = spec_bomb_trigger(orig.skip(i as int + 1), dt);
                    assert(kept@ + k2 =~= full.0);
                }
            }
            i = i + 1;
        }
        proof {
            assert(orig.skip(orig.len() as int) =~= Seq::<BombEntity>::empty());
            assert(kept@ + Seq::<BombEntity>::empty() =~= kept@);
            assert(new_fires@ + Seq::<FireEntity>::empty() =~= new_fires@);
            assert(new_events@ + Seq::<GameEvents>::empty() =~= new_events@);
        }
        self.bombs = kept;
        let ghost old_fires = self.fires@;
        let ghost old_events = self.events@;
        let mut nf = new_fires;
        let mut ne = new_events;
        self.fires.append(&mut nf);
        self.events.append(&mut ne);
        proof {
            lemma_bomb_trigger_sources(orig, dt);
            assert forall|k: int| 0 <= k < self.players@.len() implies player_wf(
                #[trigger] self.players@[k],
                self.bombs@,
                self.events@,
            ) by {
                let id = self.players@[k].id;
                lemma_bomb_trigger_counts(orig, dt, id);
                lemma_count_refunds_add(old_events, full.2, id);
                assert(player_wf(old(self).players@[k], orig, old_events));
            }
            assert forall|k: int| 0 <= k < self.fires@.len() implies match (
            #[trigger] self.fires@[k]).kind {
                FireKind::Center { ember } => in_world(self.fires@[k].position) && 0 <= ember.1
                    <= MAX_POWER,
                FireKind::Edge { .. } => true,
            } by {
                if k < old_fires.len() {
                    assert(self.fires@[k] == old_fires[k]);
                } else {
                    assert(self.fires@[k] == full.1[k - old_fires.len()]);
                }
            }
        }
    }
}

/// The edge blast cells of a propagation step, as fire entities.
pub open spec fn spec_edge_fires(cells: Seq<crate::bomb::EmberCell>) -> Seq<FireEntity> {
    cells.map_values(
        |c: crate::bomb::EmberCell|
            FireEntity {
                position: c.position,
                fire: crate::components::Fire(
                    CountdownTimer { remaining_ms: crate::components::EMBER_LIFETIME_MS },
                ),
                kind: FireKind::Edge { direction: c.direction, is_end: c.is_end },
            },
    )
}

/// A center fire with its propagation trigger advanced by `dt`.
pub open spec fn spec_ticked_center(f: FireEntity, ember: crate::components::Ember, dt: u32) -> FireEntity {
    FireEntity {
        position: f.position,
        fire: f.fire,
        kind: FireKind::Center {
            ember: crate::components::Ember(
                CountdownTimer {
                    remaining_ms: crate::components::spec_count_down(ember.0.remaining_ms, dt),
                },
                ember.1,
            ),
        },
    }
}

/// One propagation tick: every center cell's trigger advances by `dt`; a
/// trigger that just ran out fires once, yielding that detonation's edge
/// cells; edge cells are untouched.
pub open spec fn spec_ember_trigger(m: GameMap, fires: Seq<FireEntity>, dt: u32) -> (
    Seq<FireEntity>,
    Seq<FireEntity>,
)
    decreases fires.len(),
{
    if fires.len() == 0 {
        (Seq::empty(), Seq::empty())
    } else {
        let (upd, spawned) = spec_ember_trigger(m, fires.drop_first(), dt);
        match fires[0].kind {
            FireKind::Center { ember } => {
                let f1 = spec_ticked_center(fires[0], ember, dt);
                if ember.0.remaining_ms > 0 && crate::components::spec_count_down(
                    ember.0.remaining_ms,
                    dt,
                ) == 0 {
                    (
                        seq![f1] + upd,
                        spec_edge_fires(
                            crate::bomb::spec_ember_cells(m, fires[0].position, ember.1 as int),
                        ) + spawned,
                    )
                } else {
                    (seq![f1] + upd, spawned)
                }
            },
            FireKind::Edge { .. } => (seq![fires[0]] + upd, spawned),
        }
    }
}

/// The direction tag an edge blast cell carries (a center cell has none;
/// the value is immaterial there).
pub open spec fn spec_edge_direction(f: FireEntity) -> Direction {
    match f.kind {
        FireKind::Edge { direction, .. } => direction,
        FireKind::Center { .. } => Direction::Up,
    }
}

/// `f` lies within the blast of the center cell `center`: on an open tile
/// at most `center`'s power tiles out along `f`'s own direction.
pub open spec fn spec_within_blast_of(f: FireEntity, center: FireEntity, m: GameMap) -> bool {
    match center.kind {
        FireKind::Center { ember } => exists|k: int|
            1 <= k <= ember.1 && #[trigger] crate::bomb::spec_ray_cell(
                center.position,
                spec_edge_direction(f),
                k,
            ) == f.position && crate::map::spec_open_for_blast(m, f.position),
        FireKind::Edge { .. } => false,
    }
}

/// Every edge cell of one detonation lies within that detonation's blast.
proof fn lemma_detonation_cells_within(m: GameMap, center: FireEntity, power: int)
    requires
        center.kind matches FireKind::Center { ember } && ember.1 == power,
    ensures
        forall|j: int|
            0 <= j < spec_edge_fires(crate::bomb::spec_ember_cells(m, center.position, power)).len()
                ==> spec_within_blast_of(
                #[trigger] spec_edge_fires(
                    crate::bomb::spec_ember_cells(m, center.position, power),
                )[j],
                center,
                m,
            ),
{
    let o = center.position;
    let cells = crate::bomb::spec_ember_cells(m, o, power);
    let up = crate::bomb::spec_blast_ray(m, o, Direction::Up, power);
    let down = crate::bomb::spec_blast_ray(m, o, Direction::Down, power);
    let left = crate::bomb::spec_blast_ray(m, o, Direction::Left, power);
    let right = crate::bomb::spec_blast_ray(m, o, Direction::Right, power);
    crate::bomb::lemma_detonation_propagation_bound(m, o, power, Direction::Up);
    crate::bomb::lemma_detonation_propagation_bound(m, o, power, Direction::Down);
    crate::bomb::lemma_detonation_propagation_bound(m, o, power, Direction::Left);
    crate::bomb::lemma_detonation_propagation_bound(m, o, power, Direction::Right);
    assert forall|j: int| 0 <= j < spec_edge_fires(cells).len() implies spec_within_blast_of(
        #[trigger] spec_edge_fires(cells)[j],
        center,
        m,
    ) by {
        let c = cells[j];
        let f = spec_edge_fires(cells)[j];
        assert(f.position == c.position && spec_edge_direction(f) == c.direction);
        let (d, jj) = if j < up.len() {
            (Direction::Up, j)
        } else if j < up.len() + down.len() {
            (Direction::Down, j - up.len())
        } else if j < up.len() + down.len() + left.len() {
            (Direction::Left, j - up.len() - down.len())
        } else {
            (Direction::Right, j - up.len() - down.len() - left.len())
        };
        assert(c == crate::bomb::spec_blast_ray(m, o, d, power)[jj]);
        assert(c.position == crate::bomb::spec_ray_cell(o, d, jj + 1));
        assert(1 <= jj + 1 <= power);
        assert(crate::map::spec_open_for_blast(m, c.position));
    }
}

/// The propagation bound at the level of the whole tick: every blast cell
/// a propagation tick spawns lies within the blast of one of the center
/// cells that were ticking — on an open tile, at most that center's power
/// tiles out along the cell's own direction.
pub proof fn lemma_ember_trigger_bound(m: GameMap, fires: Seq<FireEntity>, dt: u32)
    ensures
        forall|j: int|
            0 <= j < spec_ember_trigger(m, fires, dt).1.len() ==> exists|i: int|
                0 <= i < fires.len() && spec_within_blast_of(
                    #[trigger] spec_ember_trigger(m, fires, dt).1[j],
                    fires[i],
                    m,
                ),
    decreases fires.len(),
{
    if fires.len() > 0 {
        lemma_ember_trigger_bound(m, fires.drop_first(), dt);
        let (upd, spawned) = spec_ember_trigger(m, fires.drop_first(), dt);
        let full = spec_ember_trigger(m, fires, dt);
        assert forall|i: int|
            0 <= i < fires.drop_first().len() implies #[trigger] fires.drop_first()[i] == fires[i
            + 1] by {}
        match fires[0].kind {
            FireKind::Center { ember } => {
                if ember.0.remaining_ms > 0 && crate::components::spec_count_down(
                    ember.0.remaining_ms,
                    dt,
                ) == 0 {
                    let own = spec_edge_fires(
                        crate::bomb::spec_ember_cells(m, fires[0].position, ember.1 as int),
                    );
                    lemma_detonation_cells_within(m, fires[0], ember.1 as int);
                    assert forall|j: int| 0 <= j < full.1.len() implies exists|i: int|
                        0 <= i < fires.len() && spec_within_blast_of(
                            #[trigger] full.1[j],
                            fires[i],
                            m,
                        ) by {
                        if j < own.len() {
                            assert(full.1[j] == own[j]);
                            assert(spec_within_blast_of(full.1[j], fires[0], m));
                        } else {
                            assert(full.1[j] == spawned[j - own.len()]);
                            let i0 = choose|i0: int|
                                0 <= i0 < fires.drop_first().len() && spec_within_blast_of(
                                    spawned[j - own.len()],
                                    fires.drop_first()[i0],
                                    m,
                                );
                            assert(spec_within_blast_of(full.1[j], fires[i0 + 1], m));
                        }
                    }
                } else {
                    assert forall|j: int| 0 <= j < full.1.len() implies exists|i: int|
                        0 <= i < fires.len() && spec_within_blast_of(
                            #[trigger] full.1[j],
                            fires[i],
                            m,
                        ) by {
                        assert(full.1[j] == spawned[j]);
                        let i0 = choose|i0: int|
                            0 <= i0 < fires.drop_first().len() && spec_within_blast_of(
                                spawned[j],
                                fires.drop_first()[i0],
                                m,
                            );
                        assert(spec_within_blast_of(full.1[j], fires[i0 + 1], m));
                    }
                }
            },
            FireKind::Edge { .. } => {
                assert forall|j: int| 0 <= j < full.1.len() implies exists|i: int|
                    0 <= i < fires.len() && spec_within_blast_of(#[trigger] full.1[j], fires[i], m) by {
                    assert(full.1[j] == spawned[j]);
                    let i0 = choose|i0: int|
                        0 <= i0 < fires.drop_first().len() && spec_within_blast_of(
                            spawned[j],
                            fires.drop_first()[i0],
                            m,
                        );
                    assert(spec_within_blast_of(full.1[j], fires[i0 + 1], m));
                }
            },
        }
    }
}

/// Unfolds `spec_ember_trigger` around a processed prefix.
proof fn lemma_ember_trigger_skip(m: GameMap, fires: Seq<FireEntity>, dt: u32, i: int)
    requires
        0 <= i < fires.len(),
    ensures
        spec_ember_trigger(m, fires.skip(i), dt) == ({
            let (upd, spawned) = spec_ember_trigger(m, fires.skip(i + 1), dt);
            match fires[i].kind {
                FireKind::Center { ember } => {
                    let f1 = spec_ticked_center(fires[i], ember, dt);
                    if ember.0.remaining_ms > 0 && crate::components::spec_count_down(
                        ember.0.remaining_ms,
                        dt,
                    ) == 0 {
                        (
                            seq![f1] + upd,
                            spec_edge_fires(
                                crate::bomb::spec_ember_cells(m, fires[i].position, ember.1 as int),
                            ) + spawned,
                        )
                    } else {
                        (seq![f1] + upd, spawned)
                    }
                },
                FireKind::Edge { .. } => (seq![fires[i]] + upd, spawned),
            }
        }),
{
    assert(fires.skip(i).drop_first() =~= fires.skip(i + 1));
    assert(fires.skip(i)[0] == fires[i]);
}

impl Game {
    /// One propagation tick: each center blast cell's delayed trigger
    /// advances by `dt`; a trigger that just ran out performs its
    /// detonation's outward walk, appending the edge blast cells it
    /// reaches. A trigger fires exactly once.
    pub fn ember_trigger(&mut self, dt: u32)
        requires
            game_wf(*old(self)),
        ensures
            game_wf(*final(self)),
            ({
                let (upd, spawned) = spec_ember_trigger(
                    old(self).map,
                    old(self).fires@,
                    dt,
                );
                final(self).fires@ == upd + spawned
            }),
            final(self).map == old(self).map,
            final(self).players == old(self).players,
            final(self).creatures == old(self).creatures,
            final(self).walls == old(self).walls,
            final(self).destructibles == old(self).destructibles,
            final(self).bombs == old(self).bombs,
            final(self).buffs == old(self).buffs,
            final(self).portals == old(self).portals,
            final(self).events == old(self).events,
            final(self).game_state == old(self).game_state,
            final(self).physics_active == old(self).physics_active,
    {
        let ghost orig = self.fires@;
        let ghost full = spec_ember_trigger(self.map, orig, dt);
        let mut spawned: Vec<FireEntity> = Vec::new();
        let mut i: usize = 0;
        proof {
            assert(orig.skip(0) =~= orig);
            assert(self.fires@.take(0) =~= Seq::<FireEntity>::empty());
            let (u0, s0) = spec_ember_trigger(self.map, orig, dt);
            assert(Seq::<FireEntity>::empty() + u0 =~= full.0);
            assert(Seq::<FireEntity>::empty() + s0 =~= full.1);
        }
        while i < self.fires.len()
            invariant
                game_wf(*self),
                self.map == old(self).map,
                self.players == old(self).players,
                self.creatures == old(self).creatures,
                self.walls == old(self).walls,
                self.destructibles == old(self).destructibles,
                self.bombs == old(self).bombs,
                self.buffs == old(self).buffs,
                self.portals == old(self).portals,
                self.events == old(self).events,
                self.game_state == old(self).game_state,
                self.physics_active == old(self).physics_active,
                0 <= i <= self.fires@.len(),
                self.fires@.len() == orig.len(),
                forall|k: int| i <= k < orig.len() ==> #[trigger] self.fires@[k] == orig[k],
                full.0 == self.fires@.take(i as int) + spec_ember_trigger(
                    self.map,
                    orig.skip(i as int),
                    dt,
                ).0,
                full.1 == spawned@ + spec_ember_trigger(self.map, orig.skip(i as int), dt).1,
                forall|k: int|
                    0 <= k < spawned@.len() ==> (#[trigger] spawned@[k]).kind matches FireKind::Edge { .. },
            decreases self.fires@.len() - i,
        {
            proof {
                lemma_ember_trigger_skip(self.map, orig, dt, i as int);
                assert(orig[i as int] == self.fires@[i as int]);
            }
            let f = self.fires[i];
            match f.kind {
                FireKind::Center { ember } => {
                    let old_rem = ember.0.remaining_ms;
                    let new_rem = if dt >= old_rem {
                        0
                    } else {
                        old_rem - dt
                    };
                    let f1 = FireEntity {
                        position: f.position,
                        fire: f.fire,
                        kind: FireKind::Center {
                            ember: crate::components::Ember(
                                CountdownTimer { remaining_ms: new_rem },
                                ember.1,
                            ),
                        },
                    };
                    proof {
                        assert(f1 == spec_ticked_center(orig[i as int], ember, dt));
                    }
                    self.fires[i] = f1;
                    if old_rem > 0 && new_rem == 0 {
                        let cells = crate::bomb::ember_cells(&self.map, &f.position, ember.1);
                        let ghost edge_seq = spec_edge_fires(
                            crate::bomb::spec_ember_cells(
                                self.map,
                                orig[i as int].position,
                                ember.1 as int,
                            ),
                        );
                        let mut j: usize = 0;
                        let ghost spawned_before = spawned@;
                        while j < cells.len()
                            invariant
                                0 <= j <= cells@.len(),
                                edge_seq.len() == cells@.len(),
                                edge_seq == spec_edge_fires(cells@),
                                spawned@ == spawned_before + edge_seq.take(j as int),
                                forall|k: int|
                                    0 <= k < spawned@.len() ==> (#[trigger] spawned@[k]).kind matches FireKind::Edge { .. },
                            decreases cells@.len() - j,
                        {
                            let c = cells[j];
                            let nf = FireEntity::edge(&c);
                            proof {
                                assert(edge_seq[j as int] == nf);
                                let lhs = (spawned_before + edge_seq.take(j as int)).push(nf);
                                assert(lhs =~= spawned_before + edge_seq.take(j as int + 1));
                            }
                            spawned.push(nf);
                            j = j + 1;
                        }
                        proof {
                            assert(edge_seq.take(edge_seq.len() as int) =~= edge_seq);
                        }
                    }
                    proof {
                        assert(self.fires@.take(i as int + 1) =~= self.fires@.take(i as int).push(
                            f1,
                        ));
                    }
                },
                FireKind::Edge { .. } => {
                    proof {
                        assert(self.fires@.take(i as int + 1) =~= self.fires@.take(i as int).push(
                            f,
                        ));
                    }
                },
            }
            i = i + 1;
            proof {
                let (u2, s2) = spec_ember_trigger(self.map, orig.skip(i as int), dt);
                assert(full.0 =~= self.fires@.take(i as int) + u2);
                assert(full.1 =~= spawned@ + s2);
            }
        }
        proof {
            assert(orig.skip(orig.len() as int) =~= Seq::<FireEntity>::empty());
            assert(self.fires@.take(orig.len() as int) =~= self.fires@);
            assert(self.fires@ + Seq::<FireEntity>::empty() =~= self.fires@);
            assert(full.0 =~= self.fires@);
        }
        let mut sp = spawned;
        let ghost upd_fires = self.fires@;
        let ghost spawned_seq = sp@;
        self.fires.append(&mut sp);
        proof {
            assert forall|k: int| 0 <= k < self.fires@.len() implies match (
            #[trigger] self.fires@[k]).kind {
                FireKind::Center { ember } => in_world(self.fires@[k].position) && 0 <= ember.1
                    <= MAX_POWER,
                FireKind::Edge { .. } => true,
            } by {
                if k < upd_fires.len() {
                    assert(self.fires@[k] == upd_fires[k]);
                } else {
                    assert(self.fires@[k] == spawned_seq[k - upd_fires.len()]);
                }
            }
        }
    }
}

/// The cells that block movement: the registered wall entities plus every
/// bomb that has turned solid.
pub open spec fn spec_bomb_walls(bombs: Seq<BombEntity>) -> Seq<Pos>
    decreases bombs.len(),
{
    if bombs.len() == 0 {
        Seq::empty()
    } else {
        let rest = spec_bomb_walls(bombs.drop_first());
        if bombs[0].wall {
            seq![bombs[0].position] + rest
        } else {
            rest
        }
    }
}

/// Unfolds `spec_bomb_walls` around a processed prefix.
proof fn lemma_bomb_walls_skip(bombs: Seq<BombEntity>, i: int)
    requires
        0 <= i < bombs.len(),
    ensures
        spec_bomb_walls(bombs.skip(i)) == if bombs[i].wall {
            seq![bombs[i].position] + spec_bomb_walls(bombs.skip(i + 1))
        } else {
            spec_bomb_walls(bombs.skip(i + 1))
        },
{
    assert(bombs.skip(i).drop_first() =~= bombs.skip(i + 1));
    assert(bombs.skip(i)[0] == bombs[i]);
}

/// One direction-and-velocity update for one player: a held key turns the
/// player and snaps its speed to the maximum; no key held stops it; a dead
/// player is untouched.
pub open spec fn spec_directed_player(
    p: PlayerEntity,
    input: crate::movement::DirectionalInput,
) -> PlayerEntity {
    if p.alive {
        match crate::movement::spec_input_direction(input) {
            Some(d) => PlayerEntity {
                motion: PlayerMotion {
                    position: p.motion.position,
                    direction: d,
                    velocity: Velocity {
                        current: p.motion.velocity.max,
                        max: p.motion.velocity.max,
                    },
                },
                ..p
            },
            None => PlayerEntity {
                motion: PlayerMotion {
                    position: p.motion.position,
                    direction: p.motion.direction,
                    velocity: Velocity { current: 0, max: p.motion.velocity.max },
                },
                ..p
            },
        }
    } else {
        p
    }
}

/// One movement tick for one player of the level against the given walls;
/// a dead player is untouched.
pub open spec fn spec_moved_player(p: PlayerEntity, walls: Seq<Pos>) -> PlayerEntity {
    if p.alive {
        PlayerEntity { motion: spec_guarded_step(p.motion, walls), ..p }
    } else {
        p
    }
}

/// One solidify step for one bomb: it turns wall once its owner no longer
/// stands on it — the placing player may walk off the cell it was dropped
/// on, but nobody walks back in. A bomb whose owner is gone turns wall at
/// once.
pub open spec fn spec_solidified_bomb(b: BombEntity, players: Seq<PlayerEntity>) -> BombEntity {
    BombEntity {
        wall: b.wall || !(exists|k: int|
            0 <= k < players.len() && (#[trigger] players[k]).alive && players[k].id
                == b.bomb.player && spec_overlaps(players[k].motion.position, b.position)),
        ..b
    }
}

/// One movement tick for one player entity of the level: moving entities
/// commit what the resolver yields, except that a step leaving the world
/// bound is refused (so every later coordinate computation stays exact);
/// everything else about the entity is untouched.
pub open spec fn spec_guarded_step(p: PlayerMotion, walls: Seq<Pos>) -> PlayerMotion {
    if p.velocity.current > 0 {
        let r = crate::movement::spec_move_or_turn(p.position, p.direction, walls);
        if r is Some && in_world(r->Some_0) {
            PlayerMotion { position: r->Some_0, direction: p.direction, velocity: p.velocity }
        } else {
            p
        }
    } else {
        p
    }
}

/// Containment at the level of the running game: a player that overlaps
/// no wall before a movement tick overlaps none after it,
/// whether the tick stepped straight, turned at a corner, refused a step
/// past the world bound, or left an idle player in place.
pub proof fn lemma_guarded_step_containment(p: PlayerMotion, walls: Seq<Pos>)
    requires
        in_world(p.position),
        forall|i: int| 0 <= i < walls.len() ==> in_world(#[trigger] walls[i]),
        crate::movement::spec_point_free(walls, p.position),
    ensures
        crate::movement::spec_point_free(walls, spec_guarded_step(p, walls).position),
{
    if p.velocity.current > 0 {
        let r = crate::movement::spec_move_or_turn(p.position, p.direction, walls);
        if r is Some && in_world(r->Some_0) {
            crate::movement::lemma_movement_containment(p.position, p.direction, walls, r->Some_0);
        }
    }
}

impl Game {
    /// One lifetime tick over the blast cells: countdowns advance by `dt`
    /// and the cells that ran out despawn, nothing else.
    pub fn despawn_fire(&mut self, dt: u32)
        requires
            game_wf(*old(self)),
        ensures
            game_wf(*final(self)),
            final(self).fires@ == crate::bomb::spec_despawn_fires(old(self).fires@, dt),
            final(self).map == old(self).map,
            final(self).players == old(self).players,
            final(self).creatures == old(self).creatures,
            final(self).walls == old(self).walls,
            final(self).destructibles == old(self).destructibles,
            final(self).bombs == old(self).bombs,
            final(self).buffs == old(self).buffs,
            final(self).portals == old(self).portals,
            final(self).events == old(self).events,
            final(self).game_state == old(self).game_state,
            final(self).physics_active == old(self).physics_active,
    {
        crate::bomb::despawn_fire(&mut self.fires, dt);
        proof {
            crate::bomb::lemma_despawn_fires_sources(old(self).fires@, dt);
            assert forall|k: int| 0 <= k < self.fires@.len() implies match (
            #[trigger] self.fires@[k]).kind {
                FireKind::Center { ember } => in_world(self.fires@[k].position) && 0 <= ember.1
                    <= MAX_POWER,
                FireKind::Edge { .. } => true,
            } by {
                let i = choose|i: int|
                    0 <= i < old(self).fires@.len() && self.fires@[k]
                        == crate::bomb::spec_ticked_fire(old(self).fires@[i], dt);
                assert(self.fires@[k].kind == old(self).fires@[i].kind);
            }
        }
    }

    /// The positions that block movement right now: the wall entities and
    /// the bombs that have turned solid.
    pub fn collision_walls(&self) -> (r: Vec<Pos>)
        requires
            game_wf(*self),
        ensures
            r@ == self.walls@ + spec_bomb_walls(self.bombs@),
            forall|i: int| 0 <= i < r@.len() ==> in_world(#[trigger] r@[i]),
    {
        let ghost full = self.walls@ + spec_bomb_walls(self.bombs@);
        let mut r: Vec<Pos> = Vec::new();
        let mut i: usize = 0;
        while i < self.walls.len()
            invariant
                0 <= i <= self.walls@.len(),
                r@ == self.walls@.take(i as int),
                game_wf(*self),
            decreases self.walls@.len() - i,
        {
            r.push(self.walls[i]);
            proof {
                assert(self.walls@.take(i as int).push(self.walls@[i as int]) =~= self.walls@.take(
                    i as int + 1,
                ));
            }
            i = i + 1;
        }
        proof {
            assert(self.walls@.take(self.walls@.len() as int) =~= self.walls@);
        }
        let mut j: usize = 0;
        proof {
            assert(self.bombs@.skip(0) =~= self.bombs@);
        }
        while j < self.bombs.len()
            invariant
                0 <= j <= self.bombs@.len(),
                game_wf(*self),
                full == r@ + spec_bomb_walls(self.bombs@.skip(j as int)),
                forall|k: int| 0 <= k < r@.len() ==> in_world(#[trigger] r@[k]),
            decreases self.bombs@.len() - j,
        {
            proof {
                lemma_bomb_walls_skip(self.bombs@, j as int);
            }
            let b = self.bombs[j];
            if b.wall {
                r.push(b.position);
                proof {
                    assert(r@ + spec_bomb_walls(self.bombs@.skip(j as int + 1)) =~= full);
                }
            }
            j = j + 1;
        }
        proof {
            assert(self.bombs@.skip(self.bombs@.len() as int) =~= Seq::<BombEntity>::empty());
            assert(r@ + Seq::<Pos>::empty() =~= r@);
        }
        r
    }

    /// One movement tick over every living player entity, against the
    /// current walls and solidified bombs.
    pub fn player_movement(&mut self)
        requires
            game_wf(*old(self)),
        ensures
            game_wf(*final(self)),
            final(self).players@.len() == old(self).players@.len(),
            forall|i: int|
                0 <= i < old(self).players@.len() ==> #[trigger] final(self).players@[i]
                    == spec_moved_player(
                    old(self).players@[i],
                    old(self).walls@ + spec_bomb_walls(old(self).bombs@),
                ),
            forall|i: int|
                0 <= i < old(self).players@.len() && crate::movement::spec_point_free(
                    old(self).walls@ + spec_bomb_walls(old(self).bombs@),
                    (#[trigger] old(self).players@[i]).motion.position,
                ) ==> crate::movement::spec_point_free(
                    old(self).walls@ + spec_bomb_walls(old(self).bombs@),
                    final(self).players@[i].motion.position,
                ),
            final(self).map == old(self).map,
            final(self).creatures == old(self).creatures,
            final(self).walls == old(self).walls,
            final(self).destructibles == old(self).destructibles,
            final(self).bombs == old(self).bombs,
            final(self).fires == old(self).fires,
            final(self).buffs == old(self).buffs,
            final(self).portals == old(self).portals,
            final(self).events == old(self).events,
            final(self).game_state == old(self).game_state,
            final(self).physics_active == old(self).physics_active,
    {
        let walls = self.collision_walls();
        let ghost wseq = walls@;
        let mut i: usize = 0;
        while i < self.players.len()
            invariant
                game_wf(*self),
                walls@ == wseq,
                wseq == old(self).walls@ + spec_bomb_walls(old(self).bombs@),
                forall|k: int| 0 <= k < wseq.len() ==> in_world(#[trigger] wseq[k]),
                0 <= i <= self.players@.len(),
                self.players@.len() == old(self).players@.len(),
                self.map == old(self).map,
                self.creatures == old(self).creatures,
                self.walls == old(self).walls,
                self.destructibles == old(self).destructibles,
                self.bombs == old(self).bombs,
                self.fires == old(self).fires,
                self.buffs == old(self).buffs,
                self.portals == old(self).portals,
                self.events == old(self).events,
                self.game_state == old(self).game_state,
                self.physics_active == old(self).physics_active,
                forall|k: int|
                    i <= k < old(self).players@.len() ==> #[trigger] self.players@[k] == old(
                        self,
                    ).players@[k],
                forall|k: int|
                    0 <= k < i ==> #[trigger] self.players@[k] == spec_moved_player(
                        old(self).players@[k],
                        wseq,
                    ),
            decreases self.players@.len() - i,
        {
            let p = self.players[i];
            if p.alive && p.motion.velocity.current > 0 {
                match crate::movement::move_or_turn(&p.motion.position, &p.motion.direction, &walls) {
                    Some(new_pos) => {
                        let in_bounds = -crate::geometry::WORLD_LIMIT <= new_pos.x && new_pos.x
                            <= crate::geometry::WORLD_LIMIT && -crate::geometry::WORLD_LIMIT
                            <= new_pos.y && new_pos.y <= crate::geometry::WORLD_LIMIT;
                        if in_bounds {
                            self.players[i] = PlayerEntity {
                                motion: PlayerMotion {
                                    position: new_pos,
                                    direction: p.motion.direction,
                                    velocity: p.motion.velocity,
                                },
                                ..p
                            };
                        }
                    },
                    None => {},
                }
            }
            i = i + 1;
        }
        proof {
            assert forall|k: int|
                0 <= k < old(self).players@.len() && crate::movement::spec_point_free(
                    wseq,
                    (#[trigger] old(self).players@[k]).motion.position,
                ) implies crate::movement::spec_point_free(
                wseq,
                self.players@[k].motion.position,
            ) by {
                let p = old(self).players@[k];
                assert(player_wf(p, old(self).bombs@, old(self).events@));
                if p.alive {
                    lemma_guarded_step_containment(p.motion, wseq);
                }
            }
        }
    }

    /// The per-tick direction and velocity update over every living player:
    /// a held direction key turns the player and snaps its speed to the
    /// maximum; no key held stops it.
    pub fn change_direction(&mut self, input: &crate::movement::DirectionalInput)
        requires
            game_wf(*old(self)),
        ensures
            game_wf(*final(self)),
            final(self).players@.len() == old(self).players@.len(),
            forall|i: int|
                0 <= i < old(self).players@.len() ==> #[trigger] final(self).players@[i]
                    == spec_directed_player(old(self).players@[i], *input),
            final(self).map == old(self).map,
            final(self).creatures == old(self).creatures,
            final(self).walls == old(self).walls,
            final(self).destructibles == old(self).destructibles,
            final(self).bombs == old(self).bombs,
            final(self).fires == old(self).fires,
            final(self).buffs == old(self).buffs,
            final(self).portals == old(self).portals,
            final(self).events == old(self).events,
            final(self).game_state == old(self).game_state,
            final(self).physics_active == old(self).physics_active,
    {
        let mut i: usize = 0;
        while i < self.players.len()
            invariant
                game_wf(*self),
                0 <= i <= self.players@.len(),
                self.players@.len() == old(self).players@.len(),
                self.map == old(self).map,
                self.creatures == old(self).creatures,
                self.walls == old(self).walls,
                self.destructibles == old(self).destructibles,
                self.bombs == old(self).bombs,
                self.fires == old(self).fires,
                self.buffs == old(self).buffs,
                self.portals == old(self).portals,
                self.events == old(self).events,
                self.game_state == old(self).game_state,
                self.physics_active == old(self).physics_active,
                forall|k: int|
                    i <= k < old(self).players@.len() ==> #[trigger] self.players@[k] == old(
                        self,
                    ).players@[k],
                forall|k: int|
                    0 <= k < i ==> #[trigger] self.players@[k] == spec_directed_player(
                        old(self).players@[k],
                        *input,
                    ),
            decreases self.players@.len() - i,
        {
            let p = self.players[i];
            if p.alive {
                let mut d = p.motion.direction;
                let mut v = p.motion.velocity;
                crate::movement::change_direction(input, &mut d, &mut v);
                self.players[i] = PlayerEntity {
                    motion: PlayerMotion { position: p.motion.position, direction: d, velocity: v },
                    ..p
                };
            }
            i = i + 1;
        }
    }

    /// Marks each bomb solid once its owner stands clear of it (or is
    /// gone): from that moment it blocks movement like a wall, while the
    /// placing player may still walk off the tile it was dropped on.
    pub fn bomb_block_player(&mut self)
        requires
            game_wf(*old(self)),
        ensures
            game_wf(*final(self)),
            final(self).bombs@.len() == old(self).bombs@.len(),
            forall|i: int|
                0 <= i < old(self).bombs@.len() ==> #[trigger] final(self).bombs@[i]
                    == spec_solidified_bomb(old(self).bombs@[i], old(self).players@),
            final(self).map == old(self).map,
            final(self).players == old(self).players,
            final(self).creatures == old(self).creatures,
            final(self).walls == old(self).walls,
            final(self).destructibles == old(self).destructibles,
            final(self).fires == old(self).fires,
            final(self).buffs == old(self).buffs,
            final(self).portals == old(self).portals,
            final(self).events == old(self).events,
            final(self).game_state == old(self).game_state,
            final(self).physics_active == old(self).physics_active,
    {
        let ghost orig = self.bombs@;
        let mut i: usize = 0;
        while i < self.bombs.len()
            invariant
                0 <= i <= self.bombs@.len(),
                self.bombs@.len() == orig.len(),
                self.map == old(self).map,
                self.players == old(self).players,
                self.creatures == old(self).creatures,
                self.walls == old(self).walls,
                self.destructibles == old(self).destructibles,
                self.fires == old(self).fires,
                self.buffs == old(self).buffs,
                self.portals == old(self).portals,
                self.events == old(self).events,
                self.game_state == old(self).game_state,
                self.physics_active == old(self).physics_active,
                forall|k: int| i <= k < orig.len() ==> #[trigger] self.bombs@[k] == orig[k],
                forall|k: int|
                    0 <= k < i ==> #[trigger] self.bombs@[k] == spec_solidified_bomb(
                        orig[k],
                        self.players@,
                    ),
            decreases orig.len() - i,
        {
            let b = self.bombs[i];
            let mut owner_on_tile = false;
            let mut k: usize = 0;
            while k < self.players.len()
                invariant
                    0 <= k <= self.players@.len(),
                    owner_on_tile == exists|m: int|
                        0 <= m < k && (#[trigger] self.players@[m]).alive && self.players@[m].id
                            == b.bomb.player && spec_overlaps(
                            self.players@[m].motion.position,
                            b.position,
                        ),
                decreases self.players@.len() - k,
            {
                let p = self.players[k];
                if p.alive && p.id == b.bomb.player && vecs_xy_intersect(
                    &p.motion.position,
                    &b.position,
                ) {
                    owner_on_tile = true;
                }
                k = k + 1;
            }
            if !owner_on_tile && !b.wall {
                self.bombs[i] = BombEntity { wall: true, ..b };
            }
            i = i + 1;
        }
        proof {
            assert forall|m: int|
                0 <= m < orig.len() implies (#[trigger] self.bombs@[m]).bomb.player
                == orig[m].bomb.player by {}
            assert forall|k: int| 0 <= k < self.players@.len() implies player_wf(
                #[trigger] self.players@[k],
                self.bombs@,
                self.events@,
            ) by {
                let id = self.players@[k].id;
                lemma_count_bombs_pointwise(orig, self.bombs@, id);
                assert(player_wf(old(self).players@[k], orig, self.events@));
            }
            assert forall|m: int|
                0 <= m < self.bombs@.len() implies in_world(
                (#[trigger] self.bombs@[m]).position,
            ) && 0 <= self.bombs@[m].power.0 <= MAX_POWER by {
                assert(self.bombs@[m].position == orig[m].position);
                assert(self.bombs@[m].power == orig[m].power);
            }
        }
    }
}

/// The first player with the given identity, if any.
pub open spec fn spec_find_player(players: Seq<PlayerEntity>, id: u32) -> Option<int>
    decreases players.len(),
{
    if players.len() == 0 {
        None
    } else if players[0].id == id {
        Some(0int)
    } else {
        match spec_find_player(players.drop_first(), id) {
            Some(j) => Some(j + 1),
            None => None,
        }
    }
}

/// A player after one bomb-slot refund settles.
pub open spec fn spec_refunded(p: PlayerEntity) -> PlayerEntity {
    PlayerEntity {
        number: BombNumber { max: p.number.max, current: (p.number.current - 1) as i32 },
        ..p
    }
}

/// The effect of one queued event: defeat and victory move the game state
/// (unless it is already terminal) and halt the physics; a refund lowers
/// the named owner's counter, or is dropped silently when the owner is
/// gone.
pub open spec fn spec_apply_event(
    players: Seq<PlayerEntity>,
    state: GameState,
    phys: bool,
    e: GameEvents,
) -> (Seq<PlayerEntity>, GameState, bool) {
    match e {
        GameEvents::GameOver => {
            if !crate::state::spec_terminal(state) {
                (players, GameState::GameOver, false)
            } else {
                (players, state, phys)
            }
        },
        GameEvents::Victory => {
            if !crate::state::spec_terminal(state) {
                (players, GameState::Victory, false)
            } else {
                (players, state, phys)
            }
        },
        GameEvents::RecoveryBombNumber(id) => {
            match spec_find_player(players, id) {
                Some(j) => (players.update(j, spec_refunded(players[j])), state, phys),
                None => (players, state, phys),
            }
        },
    }
}

/// Draining the whole queue, front to back.
pub open spec fn spec_handle_events(
    events: Seq<GameEvents>,
    players: Seq<PlayerEntity>,
    state: GameState,
    phys: bool,
) -> (Seq<PlayerEntity>, GameState, bool)
    decreases events.len(),
{
    if events.len() == 0 {
        (players, state, phys)
    } else {
        let (p1, s1, ph1) = spec_apply_event(players, state, phys, events[0]);
        spec_handle_events(events.drop_first(), p1, s1, ph1)
    }
}

/// Unfolds `spec_handle_events` around a processed prefix.
proof fn lemma_handle_events_skip(
    events: Seq<GameEvents>,
    players: Seq<PlayerEntity>,
    state: GameState,
    phys: bool,
    i: int,
)
    requires
        0 <= i < events.len(),
    ensures
        spec_handle_events(events.skip(i), players, state, phys) == ({
            let (p1, s1, ph1) = spec_apply_event(players, state, phys, events[i]);
            spec_handle_events(events.skip(i + 1), p1, s1, ph1)
        }),
{
    assert(events.skip(i).drop_first() =~= events.skip(i + 1));
    assert(events.skip(i)[0] == events[i]);
}

/// Shifts `spec_find_player` past a prefix with no match.
proof fn lemma_find_player_from(players: Seq<PlayerEntity>, id: u32, j: int)
    requires
        0 <= j <= players.len(),
        forall|k: int| 0 <= k < j ==> (#[trigger] players[k]).id != id,
    ensures
        spec_find_player(players, id) == match spec_find_player(players.skip(j), id) {
            Some(k) => Some(k + j),
            None => None::<int>,
        },
    decreases j,
{
    if j > 0 {
        lemma_find_player_from(players, id, j - 1);
        assert(players.skip(j - 1).drop_first() =~= players.skip(j));
        assert(players.skip(j - 1)[0] == players[j - 1]);
    } else {
        assert(players.skip(0) =~= players);
    }
}

impl Game {
    /// Drains the event queue, once per tick: defeat and victory events
    /// move the game state (ignored once it is terminal) and halt the
    /// physics; each refund event settles against its owner's counter, and
    /// one whose owner no longer exists is dropped silently, not an error.
    pub fn game_events_handle(&mut self)
        requires
            game_wf(*old(self)),
        ensures
            game_wf(*final(self)),
            final(self).events@.len() == 0,
            final(self).players@.len() == old(self).players@.len(),
            ({
                let (p1, s1, ph1) = spec_handle_events(
                    old(self).events@,
                    old(self).players@,
                    old(self).game_state,
                    old(self).physics_active,
                );
                final(self).players@ == p1 && final(self).game_state == s1
                    && final(self).physics_active == ph1
            }),
            final(self).map == old(self).map,
            final(self).creatures == old(self).creatures,
            final(self).walls == old(self).walls,
            final(self).destructibles == old(self).destructibles,
            final(self).bombs == old(self).bombs,
            final(self).fires == old(self).fires,
            final(self).buffs == old(self).buffs,
            final(self).portals == old(self).portals,
    {
        let ghost oevents = self.events@;
        let ghost full = spec_handle_events(
            oevents,
            self.players@,
            self.game_state,
            self.physics_active,
        );
        let mut i: usize = 0;
        proof {
            assert(oevents.skip(0) =~= oevents);
        }
        while i < self.events.len()
            invariant
                0 <= i <= oevents.len(),
                self.events@ == oevents,
                self.map == old(self).map,
                self.creatures == old(self).creatures,
                self.walls == old(self).walls,
                self.destructibles == old(self).destructibles,
                self.bombs == old(self).bombs,
                self.fires == old(self).fires,
                self.buffs == old(self).buffs,
                self.portals == old(self).portals,
                self.players@.len() == old(self).players@.len(),
                map_wf(self.map),
                forall|a: int, b: int|
                    0 <= a < self.players@.len() && 0 <= b < self.players@.len() && a != b
                        ==> (#[trigger] self.players@[a]).id != (#[trigger] self.players@[b]).id,
                forall|k: int|
                    0 <= k < self.players@.len() ==> ({
                        let p = #[trigger] self.players@[k];
                        &&& p.number.current as int == count_bombs_of(self.bombs@, p.id)
                            + count_refunds_of(oevents.skip(i as int), p.id)
                        &&& p.number.current <= p.number.max
                        &&& 0 <= p.power.0 <= MAX_POWER
                        &&& in_world(p.motion.position)
                        &&& 0 <= p.motion.velocity.current <= p.motion.velocity.max <= MAX_VELOCITY
                    }),
                forall|k: int|
                    0 <= k < self.bombs@.len() ==> in_world((#[trigger] self.bombs@[k]).position)
                        && 0 <= self.bombs@[k].power.0 <= MAX_POWER,
                forall|k: int|
                    0 <= k < self.fires@.len() ==> match (#[trigger] self.fires@[k]).kind {
                        FireKind::Center { ember } => in_world(self.fires@[k].position) && 0
                            <= ember.1 <= MAX_POWER,
                        FireKind::Edge { .. } => true,
                    },
                forall|k: int| 0 <= k < self.walls@.len() ==> in_world(#[trigger] self.walls@[k]),
                full == spec_handle_events(
                    oevents.skip(i as int),
                    self.players@,
                    self.game_state,
                    self.physics_active,
                ),
            decreases oevents.len() - i,
        {
            proof {
                lemma_handle_events_skip(
                    oevents,
                    self.players@,
                    self.game_state,
                    self.physics_active,
                    i as int,
                );
                assert(oevents.skip(i as int).drop_first() =~= oevents.skip(i as int + 1));
                assert(oevents.skip(i as int)[0] == oevents[i as int]);
            }
            let e = self.events[i];
            match e {
                GameEvents::GameOver => {
                    match self.game_state {
                        GameState::GameOver | GameState::Victory | GameState::Invalid => {},
                        _ => {
                            self.physics_active = false;
                            self.game_state = GameState::GameOver;
                        },
                    }
                },
                GameEvents::Victory => {
                    match self.game_state {
                        GameState::GameOver | GameState::Victory | GameState::Invalid => {},
                        _ => {
                            self.physics_active = false;
                            self.game_state = GameState::Victory;
                        },
                    }
                },
                GameEvents::RecoveryBombNumber(id) => {
                    let ghost pre_self = *self;
                    let ghost pre_players = self.players@;
                    let n = self.players.len();
                    let mut j: usize = 0;
                    let mut found: usize = n;
                    while j < n
                        invariant
                            *self == pre_self,
                            0 <= j <= n,
                            found <= n,
                            n == self.players@.len(),
                            found == n ==> forall|k: int|
                                0 <= k < j ==> (#[trigger] self.players@[k]).id != id,
                            found < n ==> self.players@[found as int].id == id && (forall|k: int|
                                0 <= k < found ==> (#[trigger] self.players@[k]).id != id),
                        decreases n - j,
                    {
                        if found == n && self.players[j].id == id {
                            found = j;
                        }
                        j = j + 1;
                    }
                    if found < n {
                        proof {
                            lemma_find_player_from(pre_players, id, found as int);
                            assert(pre_players.skip(found as int)[0] == pre_players[found as int]);
                            assert(spec_find_player(pre_players, id) == Some(found as int));
                            lemma_counts_nonneg(self.bombs@, oevents.skip(i as int + 1), id);
                        }
                        let p = self.players[found];
                        self.players[found] = PlayerEntity {
                            number: BombNumber { max: p.number.max, current: p.number.current - 1 },
                            ..p
                        };
                        proof {
                            assert forall|k: int|
                                0 <= k < self.players@.len() && k != found implies (
                            #[trigger] self.players@[k]).id != id by {
                                assert(self.players@[k] == pre_players[k]);
                                assert(pre_players[k].id != pre_players[found as int].id);
                            }
                            assert forall|k: int|
                                0 <= k < self.players@.len() implies count_refunds_of(
                                oevents.skip(i as int),
                                (#[trigger] self.players@[k]).id,
                            ) == count_refunds_of(oevents.skip(i as int + 1), self.players@[k].id)
                                + if self.players@[k].id == id {
                                1int
                            } else {
                                0int
                            } by {}
                        }
                    } else {
                        proof {
                            assert forall|k: int|
                                0 <= k < pre_players.len() implies (#[trigger] pre_players[k]).id
                                != id by {
                                assert(self.players@[k].id != id);
                            }
                            lemma_find_player_from(pre_players, id, pre_players.len() as int);
                            assert(pre_players.skip(pre_players.len() as int)
                                =~= Seq::<PlayerEntity>::empty());
                            assert(spec_find_player(pre_players, id) is None);
                        }
                    }
                },
            }
            i = i + 1;
        }
        proof {
            assert(oevents.skip(oevents.len() as int) =~= Seq::<GameEvents>::empty());
        }
        self.events = Vec::new();
    }
}

/// The positions of the live blast cells.
pub open spec fn spec_fire_positions(fires: Seq<FireEntity>) -> Seq<Pos> {
    fires.map_values(|f: FireEntity| f.position)
}

/// The same event repeated `n` times.
pub open spec fn spec_repeat_event(e: GameEvents, n: int) -> Seq<GameEvents>
    decreases n,
{
    if n <= 0 {
        Seq::empty()
    } else {
        spec_repeat_event(e, n - 1).push(e)
    }
}

/// Repeated defeat or victory events never change a refund count.
proof fn lemma_repeat_event_refunds(e: GameEvents, n: int, id: u32)
    requires
        !(e matches GameEvents::RecoveryBombNumber(_)),
    ensures
        count_refunds_of(spec_repeat_event(e, n), id) == 0,
    decreases n,
{
    if n > 0 {
        lemma_repeat_event_refunds(e, n - 1, id);
        lemma_count_refunds_push(spec_repeat_event(e, n - 1), e, id);
    }
}

/// The players after one destruction pass, with how many died: a living
/// player overlapped by a live blast cell dies (once), everything else
/// about every player is untouched.
pub open spec fn spec_player_destruction(players: Seq<PlayerEntity>, firepos: Seq<Pos>) -> (
    Seq<PlayerEntity>,
    int,
)
    decreases players.len(),
{
    if players.len() == 0 {
        (Seq::empty(), 0int)
    } else {
        let (ps, d) = spec_player_destruction(players.drop_first(), firepos);
        let p = players[0];
        if p.alive && spec_hit_by_fire(p.motion.position, firepos) {
            (seq![PlayerEntity { alive: false, ..p }] + ps, d + 1)
        } else {
            (seq![p] + ps, d)
        }
    }
}

/// Unfolds `spec_player_destruction` around a processed prefix.
proof fn lemma_player_destruction_skip(players: Seq<PlayerEntity>, firepos: Seq<Pos>, i: int)
    requires
        0 <= i < players.len(),
    ensures
        spec_player_destruction(players.skip(i), firepos) == ({
            let (ps, d) = spec_player_destruction(players.skip(i + 1), firepos);
            let p = players[i];
            if p.alive && spec_hit_by_fire(p.motion.position, firepos) {
                (seq![PlayerEntity { alive: false, ..p }] + ps, d + 1)
            } else {
                (seq![p] + ps, d)
            }
        }),
{
    assert(players.skip(i).drop_first() =~= players.skip(i + 1));
    assert(players.skip(i)[0] == players[i]);
}

/// The creatures a destruction pass leaves: exactly those no live blast
/// cell overlaps.
pub open spec fn spec_surviving_creatures(creatures: Seq<CreatureEntity>, firepos: Seq<Pos>) -> Seq<
    CreatureEntity,
>
    decreases creatures.len(),
{
    if creatures.len() == 0 {
        Seq::empty()
    } else {
        let rest = spec_surviving_creatures(creatures.drop_first(), firepos);
        if spec_hit_by_fire(creatures[0].position, firepos) {
            rest
        } else {
            seq![creatures[0]] + rest
        }
    }
}

/// Unfolds `spec_surviving_creatures` around a processed prefix.
proof fn lemma_surviving_creatures_skip(creatures: Seq<CreatureEntity>, firepos: Seq<Pos>, i: int)
    requires
        0 <= i < creatures.len(),
    ensures
        spec_surviving_creatures(creatures.skip(i), firepos) == if spec_hit_by_fire(
            creatures[i].position,
            firepos,
        ) {
            spec_surviving_creatures(creatures.skip(i + 1), firepos)
        } else {
            seq![creatures[i]] + spec_surviving_creatures(creatures.skip(i + 1), firepos)
        },
{
    assert(creatures.skip(i).drop_first() =~= creatures.skip(i + 1));
    assert(creatures.skip(i)[0] == creatures[i]);
}

impl Game {
    /// The destruction resolver over the whole level, run on live blast
    /// cells every tick: destroyed boxes apply their outcome (reveal a
    /// pickup or the portal), each living player overlapped by a blast cell
    /// dies and fires exactly one defeat event, and overlapped creatures
    /// are removed.
    pub fn resolve_destruction(&mut self)
        requires
            game_wf(*old(self)),
        ensures
            game_wf(*final(self)),
            final(self).players@.len() == old(self).players@.len(),
            ({
                let fp = spec_fire_positions(old(self).fires@);
                let (s, b, po, defeats) = spec_destruction(old(self).destructibles@, fp);
                let (ps, deaths) = spec_player_destruction(old(self).players@, fp);
                &&& final(self).destructibles@ == s
                &&& final(self).buffs@ == old(self).buffs@ + b
                &&& final(self).portals@ == old(self).portals@ + po
                &&& final(self).players@ == ps
                &&& final(self).creatures@ == spec_surviving_creatures(old(self).creatures@, fp)
                &&& final(self).events@ == old(self).events@ + spec_repeat_event(
                    GameEvents::GameOver,
                    defeats,
                ) + spec_repeat_event(GameEvents::GameOver, deaths)
            }),
            final(self).map == old(self).map,
            final(self).walls == old(self).walls,
            final(self).bombs == old(self).bombs,
            final(self).fires == old(self).fires,
            final(self).game_state == old(self).game_state,
            final(self).physics_active == old(self).physics_active,
    {
        let ghost fp = spec_fire_positions(self.fires@);
        let mut fire_positions: Vec<Pos> = Vec::new();
        let mut i: usize = 0;
        while i < self.fires.len()
            invariant
                0 <= i <= self.fires@.len(),
                fire_positions@.len() == i,
                forall|k: int|
                    0 <= k < i ==> #[trigger] fire_positions@[k] == self.fires@[k].position,
            decreases self.fires@.len() - i,
        {
            fire_positions.push(self.fires[i].position);
            i = i + 1;
        }
        proof {
            assert(fire_positions@ =~= fp);
        }

        // Terrain boxes and their outcomes.
        let outcome = bomb_destruction(&self.destructibles, &fire_positions);
        let ghost box_defeats = spec_destruction(self.destructibles@, fp).3;
        self.destructibles = outcome.survivors;
        let mut ob = outcome.buffs;
        let mut op = outcome.portals;
        self.buffs.append(&mut ob);
        self.portals.append(&mut op);
        let ghost events0 = self.events@;
        let ghost snap1 = *self;
        let mut k: usize = 0;
        while k < outcome.defeats
            invariant
                0 <= k <= outcome.defeats,
                k as int <= box_defeats,
                box_defeats == outcome.defeats as int,
                self.map == snap1.map,
                self.players == snap1.players,
                self.creatures == snap1.creatures,
                self.walls == snap1.walls,
                self.destructibles == snap1.destructibles,
                self.bombs == snap1.bombs,
                self.fires == snap1.fires,
                self.buffs == snap1.buffs,
                self.portals == snap1.portals,
                self.game_state == snap1.game_state,
                self.physics_active == snap1.physics_active,
                self.events@ == events0 + spec_repeat_event(GameEvents::GameOver, k as int),
            decreases outcome.defeats - k,
        {
            self.events.push(GameEvents::GameOver);
            proof {
                assert(self.events@ =~= events0 + spec_repeat_event(
                    GameEvents::GameOver,
                    k as int + 1,
                ));
            }
            k = k + 1;
        }

        // Players: any living player on a burning tile dies, once.
        let ghost oplayers = self.players@;
        let ghost fullp = spec_player_destruction(oplayers, fp);
        let ghost events1 = self.events@;
        let mut deaths: Ghost<int> = Ghost(0int);
        let mut j: usize = 0;
        proof {
            assert(oplayers.skip(0) =~= oplayers);
            assert(self.players@.take(0) =~= Seq::<PlayerEntity>::empty());
            let (p0, d0) = spec_player_destruction(oplayers, fp);
            assert(Seq::<PlayerEntity>::empty() + p0 =~= fullp.0);
            assert(events1 + spec_repeat_event(GameEvents::GameOver, 0) =~= events1);
        }
        let ghost snap2 = *self;
        while j < self.players.len()
            invariant
                0 <= j <= self.players@.len(),
                fire_positions@ == fp,
                self.map == snap2.map,
                self.creatures == snap2.creatures,
                self.walls == snap2.walls,
                self.destructibles == snap2.destructibles,
                self.bombs == snap2.bombs,
                self.fires == snap2.fires,
                self.buffs == snap2.buffs,
                self.portals == snap2.portals,
                self.game_state == snap2.game_state,
                self.physics_active == snap2.physics_active,
                self.players@.len() == oplayers.len(),
                forall|m: int| j <= m < oplayers.len() ==> #[trigger] self.players@[m] == oplayers[m],
                forall|m: int|
                    0 <= m < j ==> ((#[trigger] self.players@[m]).id == oplayers[m].id
                        && self.players@[m].number == oplayers[m].number && self.players@[m].power
                        == oplayers[m].power && self.players@[m].motion == oplayers[m].motion),
                fullp.0 == self.players@.take(j as int) + spec_player_destruction(
                    oplayers.skip(j as int),
                    fp,
                ).0,
                fullp.1 == deaths@ + spec_player_destruction(oplayers.skip(j as int), fp).1,
                0 <= deaths@,
                self.events@ == events1 + spec_repeat_event(GameEvents::GameOver, deaths@),
            decreases self.players@.len() - j,
        {
            proof {
                lemma_player_destruction_skip(oplayers, fp, j as int);
            }
            let p = self.players[j];
            if p.alive && crate::bomb::hit_by_fire(&p.motion.position, &fire_positions) {
                self.players[j] = PlayerEntity { alive: false, ..p };
                self.events.push(GameEvents::GameOver);
                proof {
                    deaths@ = deaths@ + 1;
                    assert(spec_repeat_event(GameEvents::GameOver, deaths@)
                        == spec_repeat_event(GameEvents::GameOver, deaths@ - 1).push(
                        GameEvents::GameOver,
                    ));
                    assert(self.events@ =~= events1 + spec_repeat_event(
                        GameEvents::GameOver,
                        deaths@,
                    ));
                    assert(self.players@.take(j as int + 1) =~= self.players@.take(j as int).push(
                        PlayerEntity { alive: false, ..oplayers[j as int] },
                    ));
                    let tail = spec_player_destruction(oplayers.skip(j as int + 1), fp).0;
                    assert(fullp.0 =~= self.players@.take(j as int + 1) + tail);
                }
            } else {
                proof {
                    assert(self.players@.take(j as int + 1) =~= self.players@.take(j as int).push(
                        oplayers[j as int],
                    ));
                    let tail = spec_player_destruction(oplayers.skip(j as int + 1), fp).0;
                    assert(fullp.0 =~= self.players@.take(j as int + 1) + tail);
                }
            }
            j = j + 1;
        }
        proof {
            assert(oplayers.skip(oplayers.len() as int) =~= Seq::<PlayerEntity>::empty());
            assert(self.players@.take(oplayers.len() as int) =~= self.players@);
            assert(self.players@ + Seq::<PlayerEntity>::empty() =~= self.players@);
            assert(fullp.0 =~= self.players@);
        }

        // Creatures: any creature on a burning tile is removed.
        let ghost ocreatures = self.creatures@;
        let ghost fullc = spec_surviving_creatures(ocreatures, fp);
        let mut kept: Vec<CreatureEntity> = Vec::new();
        let mut c: usize = 0;
        proof {
            assert(ocreatures.skip(0) =~= ocreatures);
            assert(Seq::<CreatureEntity>::empty() + fullc =~= fullc);
        }
        while c < self.creatures.len()
            invariant
                0 <= c <= ocreatures.len(),
                fire_positions@ == fp,
                self.creatures@ == ocreatures,
                fullc == kept@ + spec_surviving_creatures(ocreatures.skip(c as int), fp),
            decreases ocreatures.len() - c,
        {
            proof {
                lemma_surviving_creatures_skip(ocreatures, fp, c as int);
            }
            let cr = self.creatures[c];
            if !crate::bomb::hit_by_fire(&cr.position, &fire_positions) {
                kept.push(cr);
                proof {
                    assert(kept@ + spec_surviving_creatures(ocreatures.skip(c as int + 1), fp)
                        =~= fullc);
                }
            }
            c = c + 1;
        }
        proof {
            assert(ocreatures.skip(ocreatures.len() as int) =~= Seq::<CreatureEntity>::empty());
            assert(kept@ + Seq::<CreatureEntity>::empty() =~= kept@);
        }
        self.creatures = kept;

        proof {
            lemma_count_refunds_add(events0, spec_repeat_event(GameEvents::GameOver, box_defeats), 0);
            assert(self.events@ =~= events0 + spec_repeat_event(GameEvents::GameOver, box_defeats)
                + spec_repeat_event(GameEvents::GameOver, fullp.1));
            assert forall|m: int| 0 <= m < self.players@.len() implies player_wf(
                #[trigger] self.players@[m],
                self.bombs@,
                self.events@,
            ) by {
                let id = self.players@[m].id;
                assert(self.players@[m].id == oplayers[m].id && self.players@[m].number
                    == oplayers[m].number && self.players@[m].power == oplayers[m].power
                    && self.players@[m].motion == oplayers[m].motion);
                lemma_count_refunds_add(events0, spec_repeat_event(GameEvents::GameOver, box_defeats), id);
                lemma_count_refunds_add(
                    events0 + spec_repeat_event(GameEvents::GameOver, box_defeats),
                    spec_repeat_event(GameEvents::GameOver, fullp.1),
                    id,
                );
                lemma_repeat_event_refunds(GameEvents::GameOver, box_defeats, id);
                lemma_repeat_event_refunds(GameEvents::GameOver, fullp.1, id);
                assert(player_wf(old(self).players@[m], self.bombs@, events0));
            }
            assert forall|a: int, b: int|
                0 <= a < self.players@.len() && 0 <= b < self.players@.len() && a != b implies (
            #[trigger] self.players@[a]).id != (#[trigger] self.players@[b]).id by {
                assert(self.players@[a].id == oplayers[a].id);
                assert(self.players@[b].id == oplayers[b].id);
            }
        }
    }
}

/// A player's stats after collecting one pickup: more blast power, a
/// faster maximum speed (a fifth more, capped), or one more bomb slot.
/// Power and slot ceilings keep the counters in machine range.
pub open spec fn spec_apply_buff(p: PlayerEntity, kind: crate::components::Buff) -> PlayerEntity {
    match kind {
        crate::components::Buff::PowerBuff => PlayerEntity {
            power: BombPower(
                if p.power.0 < MAX_POWER {
                    (p.power.0 + 1) as i32
                } else {
                    p.power.0
                },
            ),
            ..p
        },
        crate::components::Buff::SpeedBuff => PlayerEntity {
            motion: PlayerMotion {
                position: p.motion.position,
                direction: p.motion.direction,
                velocity: Velocity {
                    current: p.motion.velocity.current,
                    max: if p.motion.velocity.max * 6 / 5 < MAX_VELOCITY {
                        (p.motion.velocity.max * 6 / 5) as i32
                    } else {
                        MAX_VELOCITY
                    },
                },
            },
            ..p
        },
        crate::components::Buff::BombNumberBuff => PlayerEntity {
            number: BombNumber {
                max: if p.number.max < MAX_POWER {
                    (p.number.max + 1) as i32
                } else {
                    p.number.max
                },
                current: p.number.current,
            },
            ..p
        },
    }
}

/// One player sweeping the pickup list, front to back: each pickup the
/// player's box overlaps is consumed and applied in order; the rest stay.
pub open spec fn spec_collect_buffs(p: PlayerEntity, buffs: Seq<BuffEntity>) -> (
    PlayerEntity,
    Seq<BuffEntity>,
)
    decreases buffs.len(),
{
    if buffs.len() == 0 {
        (p, Seq::empty())
    } else if spec_overlaps(buffs[0].position, p.motion.position) {
        spec_collect_buffs(spec_apply_buff(p, buffs[0].kind), buffs.drop_first())
    } else {
        let (pf, kept) = spec_collect_buffs(p, buffs.drop_first());
        (pf, seq![buffs[0]] + kept)
    }
}

/// Unfolds `spec_collect_buffs` around a processed prefix.
proof fn lemma_collect_buffs_skip(p: PlayerEntity, buffs: Seq<BuffEntity>, j: int)
    requires
        0 <= j < buffs.len(),
    ensures
        spec_collect_buffs(p, buffs.skip(j)) == if spec_overlaps(
            buffs[j].position,
            p.motion.position,
        ) {
            spec_collect_buffs(spec_apply_buff(p, buffs[j].kind), buffs.skip(j + 1))
        } else {
            let (pf, kept) = spec_collect_buffs(p, buffs.skip(j + 1));
            (pf, seq![buffs[j]] + kept)
        },
{
    assert(buffs.skip(j).drop_first() =~= buffs.skip(j + 1));
    assert(buffs.skip(j)[0] == buffs[j]);
}

/// Collecting pickups changes only stats: identity, bomb count, position,
/// direction and flags stay; the stat ceilings and orderings are kept.
proof fn lemma_collect_buffs_props(p: PlayerEntity, buffs: Seq<BuffEntity>)
    requires
        0 <= p.power.0 <= MAX_POWER,
        p.number.current <= p.number.max,
        0 <= p.motion.velocity.current <= p.motion.velocity.max <= MAX_VELOCITY,
    ensures
        ({
            let (pf, kept) = spec_collect_buffs(p, buffs);
            &&& pf.id == p.id
            &&& pf.number.current == p.number.current
            &&& pf.number.max >= p.number.max
            &&& pf.motion.position == p.motion.position
            &&& pf.motion.direction == p.motion.direction
            &&& pf.stopped == p.stopped
            &&& pf.alive == p.alive
            &&& 0 <= pf.power.0 <= MAX_POWER
            &&& pf.number.current <= pf.number.max
            &&& 0 <= pf.motion.velocity.current <= pf.motion.velocity.max <= MAX_VELOCITY
            &&& kept.len() <= buffs.len()
        }),
    decreases buffs.len(),
{
    if buffs.len() > 0 {
        if spec_overlaps(buffs[0].position, p.motion.position) {
            lemma_collect_buffs_props(spec_apply_buff(p, buffs[0].kind), buffs.drop_first());
        } else {
            lemma_collect_buffs_props(p, buffs.drop_first());
        }
    }
}

/// Every living player in turn sweeps the pickup list; what one player
/// leaves, the next may collect.
pub open spec fn spec_buffs_pass(players: Seq<PlayerEntity>, buffs: Seq<BuffEntity>) -> (
    Seq<PlayerEntity>,
    Seq<BuffEntity>,
)
    decreases players.len(),
{
    if players.len() == 0 {
        (Seq::empty(), buffs)
    } else {
        let p = players[0];
        if p.alive {
            let (p1, rem) = spec_collect_buffs(p, buffs);
            let (ps, remf) = spec_buffs_pass(players.drop_first(), rem);
            (seq![p1] + ps, remf)
        } else {
            let (ps, remf) = spec_buffs_pass(players.drop_first(), buffs);
            (seq![p] + ps, remf)
        }
    }
}

/// Unfolds `spec_buffs_pass` around a processed prefix.
proof fn lemma_buffs_pass_skip(players: Seq<PlayerEntity>, buffs: Seq<BuffEntity>, i: int)
    requires
        0 <= i < players.len(),
    ensures
        spec_buffs_pass(players.skip(i), buffs) == ({
            let p = players[i];
            if p.alive {
                let (p1, rem) = spec_collect_buffs(p, buffs);
                let (ps, remf) = spec_buffs_pass(players.skip(i + 1), rem);
                (seq![p1] + ps, remf)
            } else {
                let (ps, remf) = spec_buffs_pass(players.skip(i + 1), buffs);
                (seq![p] + ps, remf)
            }
        }),
{
    assert(players.skip(i).drop_first() =~= players.skip(i + 1));
    assert(players.skip(i)[0] == players[i]);
}

impl Game {
    /// Sweeps one living player over the current pickups, consuming and
    /// applying every pickup the player overlaps.
    fn collect_buffs_for(&mut self, idx: usize)
        requires
            game_wf(*old(self)),
            idx < old(self).players@.len(),
            old(self).players@[idx as int].alive,
        ensures
            game_wf(*final(self)),
            ({
                let (p1, rem) = spec_collect_buffs(
                    old(self).players@[idx as int],
                    old(self).buffs@,
                );
                final(self).players@ == old(self).players@.update(idx as int, p1)
                    && final(self).buffs@ == rem
            }),
            final(self).map == old(self).map,
            final(self).creatures == old(self).creatures,
            final(self).walls == old(self).walls,
            final(self).destructibles == old(self).destructibles,
            final(self).bombs == old(self).bombs,
            final(self).fires == old(self).fires,
            final(self).portals == old(self).portals,
            final(self).events == old(self).events,
            final(self).game_state == old(self).game_state,
            final(self).physics_active == old(self).physics_active,
    {
        let ghost obuffs = self.buffs@;
        let ghost p0 = self.players@[idx as int];
        let ghost fullcb = spec_collect_buffs(p0, obuffs);
        let mut p = self.players[idx];
        let mut kept: Vec<BuffEntity> = Vec::new();
        let mut j: usize = 0;
        proof {
            assert(obuffs.skip(0) =~= obuffs);
            lemma_collect_buffs_props(p0, obuffs);
        }
        while j < self.buffs.len()
            invariant
                0 <= j <= obuffs.len(),
                self.buffs@ == obuffs,
                idx < self.players@.len(),
                0 <= p.power.0 <= MAX_POWER,
                p.number.current <= p.number.max,
                0 <= p.motion.velocity.current <= p.motion.velocity.max <= MAX_VELOCITY,
                ({
                    let (pf, krest) = spec_collect_buffs(p, obuffs.skip(j as int));
                    fullcb == ((pf, kept@ + krest))
                }),
            decreases obuffs.len() - j,
        {
            proof {
                lemma_collect_buffs_skip(p, obuffs, j as int);
            }
            let b = self.buffs[j];
            if vecs_xy_intersect(&b.position, &p.motion.position) {
                match b.kind {
                    crate::components::Buff::PowerBuff => {
                        if p.power.0 < MAX_POWER {
                            p = PlayerEntity { power: BombPower(p.power.0 + 1), ..p };
                        }
                    },
                    crate::components::Buff::SpeedBuff => {
                        let boosted = p.motion.velocity.max * 6 / 5;
                        let new_max = if boosted < MAX_VELOCITY {
                            boosted
                        } else {
                            MAX_VELOCITY
                        };
                        p = PlayerEntity {
                            motion: PlayerMotion {
                                position: p.motion.position,
                                direction: p.motion.direction,
                                velocity: Velocity {
                                    current: p.motion.velocity.current,
                                    max: new_max,
                                },
                            },
                            ..p
                        };
                    },
                    crate::components::Buff::BombNumberBuff => {
                        if p.number.max < MAX_POWER {
                            p = PlayerEntity {
                                number: BombNumber {
                                    max: p.number.max + 1,
                                    current: p.number.current,
                                },
                                ..p
                            };
                        }
                    },
                }
            } else {
                kept.push(b);
                proof {
                    let (pf2, krest2) = spec_collect_buffs(p, obuffs.skip(j as int + 1));
                    assert(kept@ + krest2 =~= fullcb.1);
                }
            }
            j = j + 1;
        }
        proof {
            assert(obuffs.skip(obuffs.len() as int) =~= Seq::<BuffEntity>::empty());
            assert(kept@ + Seq::<BuffEntity>::empty() =~= kept@);
        }
        self.buffs = kept;
        let ghost pre_players = self.players@;
        self.players[idx] = p;
        proof {
            lemma_collect_buffs_props(p0, obuffs);
            assert forall|k: int| 0 <= k < self.players@.len() implies player_wf(
                #[trigger] self.players@[k],
                self.bombs@,
                self.events@,
            ) by {
                if k != idx as int {
                    assert(self.players@[k] == old(self).players@[k]);
                    assert(player_wf(old(self).players@[k], self.bombs@, self.events@));
                } else {
                    assert(player_wf(p0, self.bombs@, self.events@));
                }
            }
            assert forall|a: int, b: int|
                0 <= a < self.players@.len() && 0 <= b < self.players@.len() && a != b implies (
            #[trigger] self.players@[a]).id != (#[trigger] self.players@[b]).id by {
                assert(self.players@[a].id == old(self).players@[a].id);
                assert(self.players@[b].id == old(self).players@[b].id);
            }
        }
    }

    /// The pickup system: every living player collects each pickup it
    /// overlaps, gaining power, speed or a bomb slot; collected pickups
    /// disappear.
    pub fn buffs(&mut self)
        requires
            game_wf(*old(self)),
        ensures
            game_wf(*final(self)),
            final(self).players@.len() == old(self).players@.len(),
            ({
                let (ps, rem) = spec_buffs_pass(old(self).players@, old(self).buffs@);
                final(self).players@ == ps && final(self).buffs@ == rem
            }),
            final(self).map == old(self).map,
            final(self).creatures == old(self).creatures,
            final(self).walls == old(self).walls,
            final(self).destructibles == old(self).destructibles,
            final(self).bombs == old(self).bombs,
            final(self).fires == old(self).fires,
            final(self).portals == old(self).portals,
            final(self).events == old(self).events,
            final(self).game_state == old(self).game_state,
            final(self).physics_active == old(self).physics_active,
    {
        let ghost oplayers = self.players@;
        let ghost fullbp = spec_buffs_pass(oplayers, self.buffs@);
        let mut i: usize = 0;
        proof {
            assert(oplayers.skip(0) =~= oplayers);
            assert(self.players@.take(0) =~= Seq::<PlayerEntity>::empty());
            let (ps0, rem0) = spec_buffs_pass(oplayers, self.buffs@);
            assert(Seq::<PlayerEntity>::empty() + ps0 =~= fullbp.0);
        }
        while i < self.players.len()
            invariant
                game_wf(*self),
                0 <= i <= self.players@.len(),
                self.players@.len() == oplayers.len(),
                self.map == old(self).map,
                self.creatures == old(self).creatures,
                self.walls == old(self).walls,
                self.destructibles == old(self).destructibles,
                self.bombs == old(self).bombs,
                self.fires == old(self).fires,
                self.portals == old(self).portals,
                self.events == old(self).events,
                self.game_state == old(self).game_state,
                self.physics_active == old(self).physics_active,
                forall|m: int| i <= m < oplayers.len() ==> #[trigger] self.players@[m] == oplayers[m],
                fullbp == ({
                    let (ps, remf) = spec_buffs_pass(oplayers.skip(i as int), self.buffs@);
                    (self.players@.take(i as int) + ps, remf)
                }),
            decreases self.players@.len() - i,
        {
            proof {
                lemma_buffs_pass_skip(oplayers, self.buffs@, i as int);
            }
            let alive = self.players[i].alive;
            if alive {
                let ghost pre_buffs = self.buffs@;
                self.collect_buffs_for(i);
                proof {
                    let (p1, rem) = spec_collect_buffs(oplayers[i as int], pre_buffs);
                    assert(self.players@.take(i as int + 1) =~= self.players@.take(i as int).push(
                        p1,
                    ));
                    let (ps2, remf2) = spec_buffs_pass(oplayers.skip(i as int + 1), rem);
                    assert(self.players@.take(i as int + 1) + ps2 =~= fullbp.0);
                }
            } else {
                proof {
                    assert(self.players@.take(i as int + 1) =~= self.players@.take(i as int).push(
                        oplayers[i as int],
                    ));
                    let (ps2, remf2) = spec_buffs_pass(oplayers.skip(i as int + 1), self.buffs@);
                    assert(self.players@.take(i as int + 1) + ps2 =~= fullbp.0);
                }
            }
            i = i + 1;
        }
        proof {
            assert(oplayers.skip(oplayers.len() as int) =~= Seq::<PlayerEntity>::empty());
            assert(self.players@.take(oplayers.len() as int) =~= self.players@);
            assert(self.players@ + Seq::<PlayerEntity>::empty() =~= self.players@);
        }
    }
}

/// How many portals the box at `p` overlaps.
pub open spec fn spec_count_portal_hits(p: Pos, portals: Seq<Pos>) -> int
    decreases portals.len(),
{
    if portals.len() == 0 {
        0
    } else {
        spec_count_portal_hits(p, portals.drop_first()) + if spec_overlaps(portals[0], p) {
            1int
        } else {
            0int
        }
    }
}

/// Unfolds `spec_count_portal_hits` around a processed prefix.
proof fn lemma_count_portal_hits_skip(p: Pos, portals: Seq<Pos>, j: int)
    requires
        0 <= j < portals.len(),
    ensures
        spec_count_portal_hits(p, portals.skip(j)) == spec_count_portal_hits(
            p,
            portals.skip(j + 1),
        ) + if spec_overlaps(portals[j], p) {
            1int
        } else {
            0int
        },
{
    assert(portals.skip(j).drop_first() =~= portals.skip(j + 1));
    assert(portals.skip(j)[0] == portals[j]);
}

/// Hit counts are counts, hence nonnegative.
proof fn lemma_count_portal_hits_nonneg(p: Pos, portals: Seq<Pos>)
    ensures
        spec_count_portal_hits(p, portals) >= 0,
    decreases portals.len(),
{
    if portals.len() > 0 {
        lemma_count_portal_hits_nonneg(p, portals.drop_first());
    }
}

/// The players after the portal check, with the number of victory events
/// fired: a living player overlapping a portal is halted, and one event
/// fires per overlapping (player, portal) pair.
pub open spec fn spec_portal_pass(players: Seq<PlayerEntity>, portals: Seq<Pos>) -> (
    Seq<PlayerEntity>,
    int,
)
    decreases players.len(),
{
    if players.len() == 0 {
        (Seq::empty(), 0int)
    } else {
        let (ps, n) = spec_portal_pass(players.drop_first(), portals);
        let p = players[0];
        if p.alive {
            let hits = spec_count_portal_hits(p.motion.position, portals);
            if hits > 0 {
                (seq![PlayerEntity { stopped: true, ..p }] + ps, n + hits)
            } else {
                (seq![p] + ps, n)
            }
        } else {
            (seq![p] + ps, n)
        }
    }
}

/// Unfolds `spec_portal_pass` around a processed prefix.
proof fn lemma_portal_pass_skip(players: Seq<PlayerEntity>, portals: Seq<Pos>, i: int)
    requires
        0 <= i < players.len(),
    ensures
        spec_portal_pass(players.skip(i), portals) == ({
            let (ps, n) = spec_portal_pass(players.skip(i + 1), portals);
            let p = players[i];
            if p.alive {
                let hits = spec_count_portal_hits(p.motion.position, portals);
                if hits > 0 {
                    (seq![PlayerEntity { stopped: true, ..p }] + ps, n + hits)
                } else {
                    (seq![p] + ps, n)
                }
            } else {
                (seq![p] + ps, n)
            }
        }),
{
    assert(players.skip(i).drop_first() =~= players.skip(i + 1));
    assert(players.skip(i)[0] == players[i]);
}

impl Game {
    /// The portal check: a living player whose box overlaps an activated
    /// portal is halted, and one victory event fires per overlapping
    /// portal.
    pub fn portal_player_collision(&mut self)
        requires
            game_wf(*old(self)),
        ensures
            game_wf(*final(self)),
            final(self).players@.len() == old(self).players@.len(),
            ({
                let (ps, n) = spec_portal_pass(old(self).players@, old(self).portals@);
                final(self).players@ == ps && final(self).events@ == old(self).events@
                    + spec_repeat_event(GameEvents::Victory, n)
            }),
            final(self).map == old(self).map,
            final(self).creatures == old(self).creatures,
            final(self).walls == old(self).walls,
            final(self).destructibles == old(self).destructibles,
            final(self).bombs == old(self).bombs,
            final(self).fires == old(self).fires,
            final(self).buffs == old(self).buffs,
            final(self).portals == old(self).portals,
            final(self).game_state == old(self).game_state,
            final(self).physics_active == old(self).physics_active,
    {
        let ghost oplayers = self.players@;
        let ghost oportals = self.portals@;
        let ghost events0 = self.events@;
        let ghost fullpp = spec_portal_pass(oplayers, oportals);
        let ghost mut fired: int = 0;
        let mut i: usize = 0;
        proof {
            assert(oplayers.skip(0) =~= oplayers);
            assert(self.players@.take(0) =~= Seq::<PlayerEntity>::empty());
            let (ps0, n0) = spec_portal_pass(oplayers, oportals);
            assert(Seq::<PlayerEntity>::empty() + ps0 =~= fullpp.0);
            assert(events0 + spec_repeat_event(GameEvents::Victory, 0) =~= events0);
        }
        while i < self.players.len()
            invariant
                0 <= i <= self.players@.len(),
                self.players@.len() == oplayers.len(),
                self.map == old(self).map,
                self.creatures == old(self).creatures,
                self.walls == old(self).walls,
                self.destructibles == old(self).destructibles,
                self.bombs == old(self).bombs,
                self.fires == old(self).fires,
                self.buffs == old(self).buffs,
                self.portals == old(self).portals,
                self.game_state == old(self).game_state,
                self.physics_active == old(self).physics_active,
                oportals == self.portals@,
                forall|m: int| i <= m < oplayers.len() ==> #[trigger] self.players@[m] == oplayers[m],
                forall|m: int|
                    0 <= m < i ==> ((#[trigger] self.players@[m]).id == oplayers[m].id
                        && self.players@[m].number == oplayers[m].number && self.players@[m].power
                        == oplayers[m].power && self.players@[m].motion == oplayers[m].motion),
                0 <= fired,
                fullpp.0 == self.players@.take(i as int) + spec_portal_pass(
                    oplayers.skip(i as int),
                    oportals,
                ).0,
                fullpp.1 == fired + spec_portal_pass(oplayers.skip(i as int), oportals).1,
                self.events@ == events0 + spec_repeat_event(GameEvents::Victory, fired),
            decreases self.players@.len() - i,
        {
            proof {
                lemma_portal_pass_skip(oplayers, oportals, i as int);
                lemma_count_portal_hits_nonneg(
                    oplayers[i as int].motion.position,
                    oportals,
                );
            }
            let p = self.players[i];
            if p.alive {
                let ghost hits_spec = spec_count_portal_hits(p.motion.position, oportals);
                let ghost fired0 = fired;
                let mut hit_any = false;
                let mut j: usize = 0;
                let ghost snap = *self;
                proof {
                    assert(oportals.skip(0) =~= oportals);
                }
                while j < self.portals.len()
                    invariant
                        self.map == snap.map,
                        self.players == snap.players,
                        self.creatures == snap.creatures,
                        self.walls == snap.walls,
                        self.destructibles == snap.destructibles,
                        self.bombs == snap.bombs,
                        self.fires == snap.fires,
                        self.buffs == snap.buffs,
                        self.portals == snap.portals,
                        self.game_state == snap.game_state,
                        self.physics_active == snap.physics_active,
                        oportals == self.portals@,
                        0 <= j <= oportals.len(),
                        p == snap.players@[i as int],
                        i < snap.players@.len(),
                        hits_spec == spec_count_portal_hits(p.motion.position, oportals),
                        self.events@ == events0 + spec_repeat_event(
                            GameEvents::Victory,
                            fired,
                        ),
                        fired == fired0 + hits_spec - spec_count_portal_hits(
                            p.motion.position,
                            oportals.skip(j as int),
                        ),
                        hit_any == (fired != fired0),
                        0 <= fired0 <= fired,
                    decreases oportals.len() - j,
                {
                    proof {
                        lemma_count_portal_hits_skip(p.motion.position, oportals, j as int);
                        lemma_count_portal_hits_nonneg(
                            p.motion.position,
                            oportals.skip(j as int + 1),
                        );
                    }
                    if vecs_xy_intersect(&self.portals[j], &p.motion.position) {
                        self.events.push(GameEvents::Victory);
                        proof {
                            fired = fired + 1;
                            assert(self.events@ =~= events0 + spec_repeat_event(
                                GameEvents::Victory,
                                fired,
                            ));
                        }
                        hit_any = true;
                    }
                    j = j + 1;
                }
                proof {
                    assert(oportals.skip(oportals.len() as int) =~= Seq::<Pos>::empty());
                    assert(fired == fired0 + hits_spec);
                }
                if hit_any {
                    self.players[i] = PlayerEntity { stopped: true, ..p };
                }
                proof {
                    if hit_any {
                        assert(self.players@.take(i as int + 1)
                            =~= self.players@.take(i as int).push(
                            PlayerEntity { stopped: true, ..oplayers[i as int] },
                        ));
                    } else {
                        assert(self.players@.take(i as int + 1)
                            =~= self.players@.take(i as int).push(oplayers[i as int]));
                    }
                    let tail = spec_portal_pass(oplayers.skip(i as int + 1), oportals).0;
                    assert(fullpp.0 =~= self.players@.take(i as int + 1) + tail);
                }
            } else {
                proof {
                    assert(self.players@.take(i as int + 1) =~= self.players@.take(i as int).push(
                        oplayers[i as int],
                    ));
                    let tail = spec_portal_pass(oplayers.skip(i as int + 1), oportals).0;
                    assert(fullpp.0 =~= self.players@.take(i as int + 1) + tail);
                }
            }
            i = i + 1;
        }
        proof {
            assert(oplayers.skip(oplayers.len() as int) =~= Seq::<PlayerEntity>::empty());
            assert(self.players@.take(oplayers.len() as int) =~= self.players@);
            assert(self.players@ + Seq::<PlayerEntity>::empty() =~= self.players@);
            assert(fullpp.0 =~= self.players@);
            lemma_repeat_event_refunds(GameEvents::Victory, fired, 0);
            assert forall|m: int| 0 <= m < self.players@.len() implies player_wf(
                #[trigger] self.players@[m],
                self.bombs@,
                self.events@,
            ) by {
                let id = self.players@[m].id;
                lemma_count_refunds_add(events0, spec_repeat_event(GameEvents::Victory, fired), id);
                lemma_repeat_event_refunds(GameEvents::Victory, fired, id);
                assert(player_wf(old(self).players@[m], self.bombs@, events0));
            }
            assert forall|a: int, b: int|
                0 <= a < self.players@.len() && 0 <= b < self.players@.len() && a != b implies (
            #[trigger] self.players@[a]).id != (#[trigger] self.players@[b]).id by {
                assert(self.players@[a].id == oplayers[a].id);
                assert(self.players@[b].id == oplayers[b].id);
            }
        }
    }

}

/// The level state as the specifications see it: every entity list as a
/// sequence, beside the scalar state. `spec_tick` composes the per-system
/// specifications over this view.
#[verifier::ext_equal]
pub struct GameView {
    pub map: GameMap,
    pub players: Seq<PlayerEntity>,
    pub creatures: Seq<CreatureEntity>,
    pub walls: Seq<Pos>,
    pub destructibles: Seq<DestructibleEntity>,
    pub bombs: Seq<BombEntity>,
    pub fires: Seq<FireEntity>,
    pub buffs: Seq<BuffEntity>,
    pub portals: Seq<Pos>,
    pub events: Seq<GameEvents>,
    pub game_state: GameState,
    pub physics_active: bool,
}

/// The view of a level state.
pub open spec fn game_view(g: Game) -> GameView {
    GameView {
        map: g.map,
        players: g.players@,
        creatures: g.creatures@,
        walls: g.walls@,
        destructibles: g.destructibles@,
        bombs: g.bombs@,
        fires: g.fires@,
        buffs: g.buffs@,
        portals: g.portals@,
        events: g.events@,
        game_state: g.game_state,
        physics_active: g.physics_active,
    }
}

/// The direction-and-velocity update over every player.
pub open spec fn spec_change_direction_pass(
    gv: GameView,
    input: crate::movement::DirectionalInput,
) -> GameView {
    GameView {
        players: Seq::new(gv.players.len(), |i: int| spec_directed_player(gv.players[i], input)),
        ..gv
    }
}

/// The movement pass over every player, against the walls and solid bombs.
pub open spec fn spec_player_movement_pass(gv: GameView) -> GameView {
    GameView {
        players: Seq::new(
            gv.players.len(),
            |i: int| spec_moved_player(gv.players[i], gv.walls + spec_bomb_walls(gv.bombs)),
        ),
        ..gv
    }
}

/// The placement attempt of the player at `idx`: a bomb at the snapped
/// cell and one more counted slot if the placement conditions hold, else
/// no change.
pub open spec fn spec_place_bomb_pass(gv: GameView, idx: int) -> GameView {
    if 0 <= idx < gv.players.len() && spec_can_place_at(gv.players, gv.bombs, idx) {
        let p = gv.players[idx];
        let cell = spec_snap_pos(p.motion.position);
        GameView {
            bombs: gv.bombs.push(
                BombEntity {
                    bomb: Bomb {
                        timer: CountdownTimer { remaining_ms: crate::components::BOMB_FUSE_MS },
                        player: p.id,
                    },
                    power: p.power,
                    position: cell,
                    wall: false,
                },
            ),
            players: gv.players.update(
                idx,
                PlayerEntity {
                    number: BombNumber {
                        max: p.number.max,
                        current: (p.number.current + 1) as i32,
                    },
                    ..p
                },
            ),
            ..gv
        }
    } else {
        gv
    }
}

/// The placement attempts of the players from `idx` on, in order; what an
/// earlier player placed blocks a later player's cell.
pub open spec fn spec_place_all_from(gv: GameView, idx: int) -> GameView
    decreases gv.players.len() - idx,
{
    if idx < 0 || idx >= gv.players.len() {
        gv
    } else {
        spec_place_all_from(spec_place_bomb_pass(gv, idx), idx + 1)
    }
}

/// The fuse tick: expired bombs become center blast cells and refunds.
pub open spec fn spec_bomb_trigger_pass(gv: GameView, dt: u32) -> GameView {
    let (kept, nfires, nevs) = spec_bomb_trigger(gv.bombs, dt);
    GameView { bombs: kept, fires: gv.fires + nfires, events: gv.events + nevs, ..gv }
}

/// The propagation tick: triggers that just ran out spawn their edge cells.
pub open spec fn spec_ember_trigger_pass(gv: GameView, dt: u32) -> GameView {
    let (upd, spawned) = spec_ember_trigger(gv.map, gv.fires, dt);
    GameView { fires: upd + spawned, ..gv }
}

/// The blast-cell lifetime tick.
pub open spec fn spec_despawn_fire_pass(gv: GameView, dt: u32) -> GameView {
    GameView { fires: crate::bomb::spec_despawn_fires(gv.fires, dt), ..gv }
}

/// The solidify pass: each bomb some player stands clear of turns wall.
pub open spec fn spec_bomb_block_pass(gv: GameView) -> GameView {
    GameView {
        bombs: Seq::new(gv.bombs.len(), |i: int| spec_solidified_bomb(gv.bombs[i], gv.players)),
        ..gv
    }
}

/// The destruction pass: boxes apply their outcomes, players die with one
/// defeat event each, creatures are removed.
pub open spec fn spec_destruction_pass(gv: GameView) -> GameView {
    let fp = spec_fire_positions(gv.fires);
    let (s, b, po, defeats) = spec_destruction(gv.destructibles, fp);
    let (ps, deaths) = spec_player_destruction(gv.players, fp);
    GameView {
        destructibles: s,
        buffs: gv.buffs + b,
        portals: gv.portals + po,
        players: ps,
        creatures: spec_surviving_creatures(gv.creatures, fp),
        events: gv.events + spec_repeat_event(GameEvents::GameOver, defeats) + spec_repeat_event(
            GameEvents::GameOver,
            deaths,
        ),
        ..gv
    }
}

/// The pickup pass: each living player in turn collects what it overlaps.
pub open spec fn spec_buffs_pass_view(gv: GameView) -> GameView {
    let (ps, rem) = spec_buffs_pass(gv.players, gv.buffs);
    GameView { players: ps, buffs: rem, ..gv }
}

/// The portal check: overlapping living players halt and raise victories.
pub open spec fn spec_portal_pass_view(gv: GameView) -> GameView {
    let (ps, n) = spec_portal_pass(gv.players, gv.portals);
    GameView {
        players: ps,
        events: gv.events + spec_repeat_event(GameEvents::Victory, n),
        ..gv
    }
}

/// The event-queue drain: transitions apply, refunds settle, queue empties.
pub open spec fn spec_events_pass(gv: GameView) -> GameView {
    let (p1, s1, ph1) = spec_handle_events(gv.events, gv.players, gv.game_state, gv.physics_active);
    GameView {
        players: p1,
        game_state: s1,
        physics_active: ph1,
        events: Seq::empty(),
        ..gv
    }
}

/// One whole simulation tick over the view: the per-system passes composed
/// in the fixed order — direction and velocity update, movement, placement
/// on its trigger, fuse tick, propagation tick, blast-cell lifetime tick,
/// bombs turning solid, destruction, pickups, the portal check, and the
/// event-queue drain.
pub open spec fn spec_tick(
    gv: GameView,
    dt: u32,
    input: crate::movement::DirectionalInput,
    place_bomb: bool,
) -> GameView {
    let g1 = spec_change_direction_pass(gv, input);
    let g2 = spec_player_movement_pass(g1);
    let g3 = if place_bomb {
        spec_place_all_from(g2, 0)
    } else {
        g2
    };
    let g4 = spec_bomb_trigger_pass(g3, dt);
    let g5 = spec_ember_trigger_pass(g4, dt);
    let g6 = spec_despawn_fire_pass(g5, dt);
    let g7 = spec_bomb_block_pass(g6);
    let g8 = spec_destruction_pass(g7);
    let g9 = spec_buffs_pass_view(g8);
    let g10 = spec_portal_pass_view(g9);
    spec_events_pass(g10)
}

impl Game {
    /// One whole simulation tick, in the fixed order: direction and
    /// velocity update, movement resolution, bomb placement on its trigger,
    /// fuse tick, propagation tick, blast-cell lifetime tick, bombs turning
    /// solid, destruction resolution, pickups, the portal check, and the
    /// event-queue drain.
    pub fn tick(&mut self, dt: u32, input: &crate::movement::DirectionalInput, place_bomb: bool)
        requires
            game_wf(*old(self)),
        ensures
            game_wf(*final(self)),
            game_view(*final(self)) == spec_tick(game_view(*old(self)), dt, *input, place_bomb),
    {
        let ghost gv0 = game_view(*old(self));
        self.change_direction(input);
        proof {
            assert(game_view(*self) =~~= spec_change_direction_pass(gv0, *input));
        }
        let ghost gv1 = game_view(*self);
        self.player_movement();
        proof {
            assert(game_view(*self) =~~= spec_player_movement_pass(gv1));
        }
        let ghost gv2 = game_view(*self);
        if place_bomb {
            let mut i: usize = 0;
            while i < self.players.len()
                invariant
                    game_wf(*self),
                    0 <= i <= self.players@.len(),
                    spec_place_all_from(gv2, 0) == spec_place_all_from(
                        game_view(*self),
                        i as int,
                    ),
                decreases self.players@.len() - i,
            {
                let ghost pre = game_view(*self);
                self.space_to_set_bomb(i);
                proof {
                    assert(game_view(*self) =~~= spec_place_bomb_pass(pre, i as int));
                }
                i = i + 1;
            }
        }
        let ghost gv3 = game_view(*self);
        proof {
            if place_bomb {
                assert(spec_place_all_from(gv3, gv3.players.len() as int) == gv3);
                assert(gv3 == spec_place_all_from(gv2, 0));
            }
        }
        self.bomb_trigger(dt);
        proof {
            assert(game_view(*self) =~~= spec_bomb_trigger_pass(gv3, dt));
        }
        let ghost gv4 = game_view(*self);
        self.ember_trigger(dt);
        proof {
            assert(game_view(*self) =~~= spec_ember_trigger_pass(gv4, dt));
        }
        let ghost gv5 = game_view(*self);
        self.despawn_fire(dt);
        proof {
            assert(game_view(*self) =~~= spec_despawn_fire_pass(gv5, dt));
        }
        let ghost gv6 = game_view(*self);
        self.bomb_block_player();
        proof {
            assert(game_view(*self) =~~= spec_bomb_block_pass(gv6));
        }
        let ghost gv7 = game_view(*self);
        self.resolve_destruction();
        proof {
            assert(game_view(*self) =~~= spec_destruction_pass(gv7));
        }
        let ghost gv8 = game_view(*self);
        self.buffs();
        proof {
            assert(game_view(*self) =~~= spec_buffs_pass_view(gv8));
        }
        let ghost gv9 = game_view(*self);
        self.portal_player_collision();
        proof {
            assert(game_view(*self) =~~= spec_portal_pass_view(gv9));
        }
        let ghost gv10 = game_view(*self);
        self.game_events_handle();
        proof {
            assert(game_view(*self).events =~= Seq::<GameEvents>::empty());
            assert(game_view(*self) =~~= spec_events_pass(gv10));
        }
    }
}

/// A freshly spawned player: facing right, idle, one bomb slot, blast
/// power one.
pub open spec fn spec_fresh_player(id: u32, position: Pos) -> PlayerEntity {
    PlayerEntity {
        id,
        motion: PlayerMotion {
            position,
            direction: Direction::Right,
            velocity: Velocity { current: 0, max: 150 },
        },
        power: BombPower(1),
        number: BombNumber { max: 1, current: 0 },
        stopped: false,
        alive: true,
    }
}

/// A freshly spawned creature: facing right, always on the move.
pub open spec fn spec_fresh_creature(position: Pos) -> CreatureEntity {
    CreatureEntity {
        position,
        direction: Direction::Right,
        velocity: Velocity { current: 200, max: 200 },
    }
}

impl PlayerEntity {
    /// A freshly spawned player: facing right, idle, one bomb slot, blast
    /// power one.
    pub fn new(id: u32, position: Pos) -> (r: Self)
        ensures
            r == spec_fresh_player(id, position),
            r.id == id,
            r.motion.position == position,
            r.motion.direction == Direction::Right,
            r.motion.velocity == (Velocity { current: 0, max: 150 }),
            r.power == BombPower(1),
            r.number == (BombNumber { max: 1, current: 0 }),
            !r.stopped,
            r.alive,
    {
        PlayerEntity {
            id,
            motion: PlayerMotion {
                position,
                direction: Direction::Right,
                velocity: Velocity { current: 0, max: 150 },
            },
            power: BombPower(1),
            number: BombNumber { max: 1, current: 0 },
            stopped: false,
            alive: true,
        }
    }
}

impl CreatureEntity {
    /// A freshly spawned creature: facing right, always on the move.
    pub fn new(position: Pos) -> (r: Self)
        ensures
            r == spec_fresh_creature(position),
            r.position == position,
            r.direction == Direction::Right,
            r.velocity == (Velocity { current: 200, max: 200 }),
    {
        CreatureEntity {
            position,
            direction: Direction::Right,
            velocity: Velocity { current: 200, max: 200 },
        }
    }
}

/// The destructible payload a box kind carries; plain walls and non-wall
/// kinds carry none.
pub open spec fn spec_box_payload(k: crate::setup::SpawnKind) -> Option<
    crate::components::Destructible,
> {
    match k {
        crate::setup::SpawnKind::NormalBox => Some(crate::components::Destructible::NormalBox),
        crate::setup::SpawnKind::BombNumberBuffBox => Some(
            crate::components::Destructible::BombNumberBuffBox,
        ),
        crate::setup::SpawnKind::PowerBuffBox => Some(
            crate::components::Destructible::PowerBuffBox,
        ),
        crate::setup::SpawnKind::SpeedBuffBox => Some(
            crate::components::Destructible::SpeedBuffBox,
        ),
        crate::setup::SpawnKind::PortalBox => Some(crate::components::Destructible::Portal),
        _ => None,
    }
}

/// Whether a plan entry of this kind blocks movement: a wall or any box.
pub open spec fn spec_spawns_wall(k: crate::setup::SpawnKind) -> bool {
    k is NormalWall || k is LastWall || spec_box_payload(k) is Some
}

/// The entities a spawn plan creates, walked in order with `next_id` the
/// next fresh player identity: the wall positions, the destructible boxes
/// with their payloads, the players (sequential identities) and the
/// creatures. Entries outside the world bound, and players past the
/// identity ceiling, are skipped.
pub open spec fn spec_level_entities(
    plan: Seq<crate::setup::Spawn<crate::setup::SpawnKind>>,
    next_id: u32,
) -> (Seq<Pos>, Seq<DestructibleEntity>, Seq<PlayerEntity>, Seq<CreatureEntity>)
    decreases plan.len(),
{
    if plan.len() == 0 {
        (Seq::empty(), Seq::empty(), Seq::empty(), Seq::empty())
    } else {
        let s = plan[0];
        let spawns_player = s.kind is PlayerSpawn && in_world(s.position) && next_id
            < 1_000_000_000;
        let nid = if spawns_player {
            (next_id + 1) as u32
        } else {
            next_id
        };
        let (w, d, p, c) = spec_level_entities(plan.drop_first(), nid);
        if !in_world(s.position) {
            (w, d, p, c)
        } else if spec_spawns_wall(s.kind) {
            match spec_box_payload(s.kind) {
                Some(payload) => (
                    seq![s.position] + w,
                    seq![DestructibleEntity { position: s.position, kind: payload }] + d,
                    p,
                    c,
                ),
                None => (seq![s.position] + w, d, p, c),
            }
        } else if spawns_player {
            (w, d, seq![spec_fresh_player(next_id, s.position)] + p, c)
        } else if s.kind is CreatureSpawn {
            (w, d, p, seq![spec_fresh_creature(s.position)] + c)
        } else {
            (w, d, p, c)
        }
    }
}

/// Unfolds `spec_level_entities` around a processed prefix.
proof fn lemma_level_entities_skip(
    plan: Seq<crate::setup::Spawn<crate::setup::SpawnKind>>,
    next_id: u32,
    i: int,
)
    requires
        0 <= i < plan.len(),
    ensures
        spec_level_entities(plan.skip(i), next_id) == ({
            let s = plan[i];
            let spawns_player = s.kind is PlayerSpawn && in_world(s.position) && next_id
                < 1_000_000_000;
            let nid = if spawns_player {
                (next_id + 1) as u32
            } else {
                next_id
            };
            let (w, d, p, c) = spec_level_entities(plan.skip(i + 1), nid);
            if !in_world(s.position) {
                (w, d, p, c)
            } else if spec_spawns_wall(s.kind) {
                match spec_box_payload(s.kind) {
                    Some(payload) => (
                        seq![s.position] + w,
                        seq![DestructibleEntity { position: s.position, kind: payload }] + d,
                        p,
                        c,
                    ),
                    None => (seq![s.position] + w, d, p, c),
                }
            } else if spawns_player {
                (w, d, seq![spec_fresh_player(next_id, s.position)] + p, c)
            } else if s.kind is CreatureSpawn {
                (w, d, p, seq![spec_fresh_creature(s.position)] + c)
            } else {
                (w, d, p, c)
            }
        }),
{
    assert(plan.skip(i).drop_first() =~= plan.skip(i + 1));
    assert(plan.skip(i)[0] == plan[i]);
}

impl Game {
    /// Builds a fresh level from a loaded map: walls and boxes become wall
    /// entities (boxes also destructible entities with their outcome tag),
    /// the start cells become the player and the creatures, and the dynamic
    /// lists start empty. Spawn cells outside the world bound are skipped,
    /// which cannot happen for a map within the index limits.
    pub fn new(map: GameMap) -> (g: Game)
        requires
            map_wf(map),
        ensures
            game_wf(g),
            g.map == map,
            g.bombs@.len() == 0,
            g.fires@.len() == 0,
            g.buffs@.len() == 0,
            g.portals@.len() == 0,
            g.events@.len() == 0,
            g.game_state == GameState::Game,
            g.physics_active,
            ({
                let (w, d, p, c) = spec_level_entities(
                    crate::setup::spec_map_plan(map),
                    0,
                );
                g.walls@ == w && g.destructibles@ == d && g.players@ == p && g.creatures@ == c
            }),
            forall|i: int|
                0 <= i < g.players@.len() ==> (#[trigger] g.players@[i]).number == (BombNumber {
                    max: 1,
                    current: 0,
                }) && g.players@[i].power == BombPower(1) && g.players@[i].alive,
    {
        let plan = crate::setup::setup_map(&map);
        let ghost full = spec_level_entities(plan@, 0);
        let mut players: Vec<PlayerEntity> = Vec::new();
        let mut creatures: Vec<CreatureEntity> = Vec::new();
        let mut walls: Vec<Pos> = Vec::new();
        let mut destructibles: Vec<DestructibleEntity> = Vec::new();
        let mut next_id: u32 = 0;
        let mut i: usize = 0;
        proof {
            assert(plan@.skip(0) =~= plan@);
            let (w0, d0, p0, c0) = spec_level_entities(plan@, 0);
            assert(Seq::<Pos>::empty() + w0 =~= w0);
            assert(Seq::<DestructibleEntity>::empty() + d0 =~= d0);
            assert(Seq::<PlayerEntity>::empty() + p0 =~= p0);
            assert(Seq::<CreatureEntity>::empty() + c0 =~= c0);
        }
        while i < plan.len()
            invariant
                forall|k: int| 0 <= k < walls@.len() ==> in_world(#[trigger] walls@[k]),
                i <= plan@.len(),
                next_id <= 1_000_000_000,
                ({
                    let (w, d, p, c) = spec_level_entities(plan@.skip(i as int), next_id);
                    full == ((walls@ + w, destructibles@ + d, players@ + p, creatures@ + c))
                }),
                players@.len() <= next_id,
                forall|k: int|
                    0 <= k < players@.len() ==> in_world(
                        (#[trigger] players@[k]).motion.position,
                    ) && players@[k].number == (BombNumber { max: 1, current: 0 })
                        && players@[k].power == BombPower(1) && players@[k].alive
                        && players@[k].motion.velocity == (Velocity { current: 0, max: 150 }),
                forall|k: int| 0 <= k < players@.len() ==> (#[trigger] players@[k]).id < next_id,
                forall|a: int, b: int|
                    0 <= a < players@.len() && 0 <= b < players@.len() && a != b
                        ==> (#[trigger] players@[a]).id != (#[trigger] players@[b]).id,
            decreases plan@.len() - i,
        {
            proof {
                lemma_level_entities_skip(plan@, next_id, i as int);
            }
            let ghost id0 = next_id;
            let s = plan[i];
            let p = s.position;
            let in_bounds = -crate::geometry::WORLD_LIMIT <= p.x && p.x
                <= crate::geometry::WORLD_LIMIT && -crate::geometry::WORLD_LIMIT <= p.y && p.y
                <= crate::geometry::WORLD_LIMIT;
            if in_bounds {
                match s.kind {
                    crate::setup::SpawnKind::NormalWall => {
                        walls.push(p);
                        proof {
                            let (w2, d2, p2, c2) = spec_level_entities(
                                plan@.skip(i as int + 1),
                                id0,
                            );
                            assert(walls@ + w2 =~= full.0);
                        }
                    },
                    crate::setup::SpawnKind::LastWall => {
                        walls.push(p);
                        proof {
                            let (w2, d2, p2, c2) = spec_level_entities(
                                plan@.skip(i as int + 1),
                                id0,
                            );
                            assert(walls@ + w2 =~= full.0);
                        }
                    },
                    crate::setup::SpawnKind::NormalBox => {
                        walls.push(p);
                        destructibles.push(
                            DestructibleEntity {
                                position: p,
                                kind: crate::components::Destructible::NormalBox,
                            },
                        );
                        proof {
                            let (w2, d2, p2, c2) = spec_level_entities(
                                plan@.skip(i as int + 1),
                                id0,
                            );
                            assert(walls@ + w2 =~= full.0);
                            assert(destructibles@ + d2 =~= full.1);
                        }
                    },
                    crate::setup::SpawnKind::BombNumberBuffBox => {
                        walls.push(p);
                        destructibles.push(
                            DestructibleEntity {
                                position: p,
                                kind: crate::components::Destructible::BombNumberBuffBox,
                            },
                        );
                        proof {
                            let (w2, d2, p2, c2) = spec_level_entities(
                                plan@.skip(i as int + 1),
                                id0,
                            );
                            assert(walls@ + w2 =~= full.0);
                            assert(destructibles@ + d2 =~= full.1);
                        }
                    },
                    crate::setup::SpawnKind::PowerBuffBox => {
                        walls.push(p);
                        destructibles.push(
                            DestructibleEntity {
                                position: p,
                                kind: crate::components::Destructible::PowerBuffBox,
                            },
                        );
                        proof {
                            let (w2, d2, p2, c2) = spec_level_entities(
                                plan@.skip(i as int + 1),
                                id0,
                            );
                            assert(walls@ + w2 =~= full.0);
                            assert(destructibles@ + d2 =~= full.1);
                        }
                    },
                    crate::setup::SpawnKind::SpeedBuffBox => {
                        walls.push(p);
                        destructibles.push(
                            DestructibleEntity {
                                position: p,
                                kind: crate::components::Destructible::SpeedBuffBox,
                            },
                        );
                        proof {
                            let (w2, d2, p2, c2) = spec_level_entities(
                                plan@.skip(i as int + 1),
                                id0,
                            );
                            assert(walls@ + w2 =~= full.0);
                            assert(destructibles@ + d2 =~= full.1);
                        }
                    },
                    crate::setup::SpawnKind::PortalBox => {
                        walls.push(p);
                        destructibles.push(
                            DestructibleEntity {
                                position: p,
                                kind: crate::components::Destructible::Portal,
                            },
                        );
                        proof {
                            let (w2, d2, p2, c2) = spec_level_entities(
                                plan@.skip(i as int + 1),
                                id0,
                            );
                            assert(walls@ + w2 =~= full.0);
                            assert(destructibles@ + d2 =~= full.1);
                        }
                    },
                    crate::setup::SpawnKind::PlayerSpawn => {
                        if next_id < 1_000_000_000 {
                            players.push(PlayerEntity::new(next_id, p));
                            next_id = next_id + 1;
                            proof {
                                let (w2, d2, p2, c2) = spec_level_entities(
                                    plan@.skip(i as int + 1),
                                    next_id,
                                );
                                assert(players@ + p2 =~= full.2);
                            }
                        }
                    },
                    crate::setup::SpawnKind::CreatureSpawn => {
                        creatures.push(CreatureEntity::new(p));
                        proof {
                            let (w2, d2, p2, c2) = spec_level_entities(
                                plan@.skip(i as int + 1),
                                id0,
                            );
                            assert(creatures@ + c2 =~= full.3);
                        }
                    },
                    crate::setup::SpawnKind::GreenWay => {},
                }
            }
            i = i + 1;
        }
        proof {
            assert(plan@.skip(plan@.len() as int)
                =~= Seq::<crate::setup::Spawn<crate::setup::SpawnKind>>::empty());
            assert(walls@ + Seq::<Pos>::empty() =~= walls@);
            assert(destructibles@ + Seq::<DestructibleEntity>::empty() =~= destructibles@);
            assert(players@ + Seq::<PlayerEntity>::empty() =~= players@);
            assert(creatures@ + Seq::<CreatureEntity>::empty() =~= creatures@);
        }
        let g = Game {
            map,
            players,
            creatures,
            walls,
            destructibles,
            bombs: Vec::new(),
            fires: Vec::new(),
            buffs: Vec::new(),
            portals: Vec::new(),
            events: Vec::new(),
            game_state: GameState::Game,
            physics_active: true,
        };
        g
    }
}

/// Bomb ownership counts depend only on each bomb's owner, not on its
/// solidity, fuse or cell.
proof fn lemma_count_bombs_pointwise(a: Seq<BombEntity>, b: Seq<BombEntity>, id: u32)
    requires
        a.len() == b.len(),
        forall|i: int| 0 <= i < a.len() ==> (#[trigger] a[i]).bomb.player == (#[trigger] b[i]).bomb.player,
    ensures
        count_bombs_of(a, id) == count_bombs_of(b, id),
    decreases a.len(),
{
    if a.len() > 0 {
        assert forall|i: int|
            0 <= i < a.drop_first().len() implies (#[trigger] a.drop_first()[i]).bomb.player == (
        #[trigger] b.drop_first()[i]).bomb.player by {
            assert(a.drop_first()[i] == a[i + 1]);
            assert(b.drop_first()[i] == b[i + 1]);
        }
        lemma_count_bombs_pointwise(a.drop_first(), b.drop_first(), id);
    }
}

} // verus!
