//! The creatures' roaming, the contact-event dispatch, and the removal of
//! dying players.
//!
//! A creature glides along its facing direction through the same movement
//! resolver as the player. While it is moving it only occasionally turns
//! to a random direction; when the resolver refuses the step it always
//! turns. The contact dispatch (a player dies on touching a creature; a
//! creature reported bumping a wall turns half the time) is a pure
//! decision here. The per-draw decisions are verified functions; the
//! draws themselves come from the generator behind the trusted items
//! below.

use vstd::prelude::*;
use crate::components::{Animation, CountdownTimer, Direction, Stop};
use crate::game::{CreatureEntity, PlayerEntity};
use crate::geometry::{Pos, in_world};
use crate::movement::{move_or_turn, spec_move_or_turn, spec_point_free};

verus! {

/// Chance, in percent, that a moving creature turns spontaneously in one
/// tick.
pub const TURN_PROBABILITY: i32 = 2;

/// Chance, in percent, that a creature turns after bumping into a wall.
pub const BUMP_TURN_PROBABILITY: i32 = 50;

/// Declares `rand::rngs::ThreadRng` to the verifier as an opaque type; the
/// generator is only carried through, never inspected.
#[verifier::external_type_specification]
#[verifier::external_body]
pub struct ExThreadRng(rand::rngs::ThreadRng);

/// Relies on `rand::thread_rng`: a handle to the thread-local generator.
/// Nothing is promised of it; every draw below states only its range.
#[verifier::external_body]
pub fn new_rng() -> rand::rngs::ThreadRng {
    rand::thread_rng()
}

/// Relies on `rand::Rng::gen_range(0..=100)`: the draw lies in the given
/// range; which value comes out is chance, so no more is stated.
#[verifier::external_body]
fn gen_percent(rng: &mut rand::rngs::ThreadRng) -> (r: i32)
    ensures
        0 <= r <= 100,
{
    rand::Rng::gen_range(rng, 0..=100)
}

/// Relies on `rand::Rng::gen_range(0..=3)`: the draw lies in the given
/// range; which value comes out is chance, so no more is stated.
#[verifier::external_body]
fn gen_direction_index(rng: &mut rand::rngs::ThreadRng) -> (r: u8)
    ensures
        r <= 3,
{
    rand::Rng::gen_range(rng, 0..=3)
}

/// The direction a random draw selects.
pub open spec fn spec_direction_from_index(i: u8) -> Direction {
    if i == 0 {
        Direction::Left
    } else if i == 1 {
        Direction::Up
    } else if i == 2 {
        Direction::Right
    } else {
        Direction::Down
    }
}

/// Maps a random draw to one of the four directions.
pub fn direction_from_index(i: u8) -> (r: Direction)
    ensures
        r == spec_direction_from_index(i),
{
    if i == 0 {
        Direction::Left
    } else if i == 1 {
        Direction::Up
    } else if i == 2 {
        Direction::Right
    } else {
        Direction::Down
    }
}

/// A uniformly random direction.
pub fn random_direction(rng: &mut rand::rngs::ThreadRng) -> Direction {
    let i = gen_direction_index(rng);
    direction_from_index(i)
}

/// The turn decision from the drawn percentage: turn to the drawn
/// direction when the draw falls under the threshold, else keep going.
pub open spec fn spec_creature_turn(
    current: Direction,
    roll: i32,
    threshold: i32,
    drawn: Direction,
) -> Direction {
    if roll < threshold {
        drawn
    } else {
        current
    }
}

/// Applies the turn decision for one creature.
pub fn creature_turn(current: Direction, roll: i32, threshold: i32, drawn: Direction) -> (r:
    Direction)
    ensures
        r == spec_creature_turn(current, roll, threshold, drawn),
{
    if roll < threshold {
        drawn
    } else {
        current
    }
}

/// Where one roaming tick puts a creature: the resolver's step along its
/// facing direction when there is one (refused past the world bound, as
/// for players), else in place. The facing itself is left to the draws.
pub open spec fn spec_creature_step(c: CreatureEntity, walls: Seq<Pos>) -> Pos {
    match spec_move_or_turn(c.position, c.direction, walls) {
        Some(np) => if in_world(np) {
            np
        } else {
            c.position
        },
        None => c.position,
    }
}

/// One roaming tick over the creatures: each one steps through the
/// movement resolver along its facing direction; a moving creature
/// occasionally turns to a random direction afterwards, and a creature
/// whose step was refused always turns. Speeds are untouched, and a
/// creature that starts clear of every wall ends clear.
pub fn creature_movement(
    creatures: &mut Vec<CreatureEntity>,
    walls: &Vec<Pos>,
    rng: &mut rand::rngs::ThreadRng,
)
    requires
        forall|i: int| 0 <= i < walls@.len() ==> in_world(#[trigger] walls@[i]),
        forall|i: int|
            0 <= i < old(creatures)@.len() ==> in_world(
                (#[trigger] old(creatures)@[i]).position,
            ),
    ensures
        final(creatures)@.len() == old(creatures)@.len(),
        forall|i: int|
            0 <= i < old(creatures)@.len() ==> (#[trigger] final(creatures)@[i]).position
                == spec_creature_step(old(creatures)@[i], walls@),
        forall|i: int|
            0 <= i < old(creatures)@.len() ==> (#[trigger] final(creatures)@[i]).velocity == old(
                creatures,
            )@[i].velocity,
        forall|i: int|
            0 <= i < old(creatures)@.len() && spec_point_free(
                walls@,
                (#[trigger] old(creatures)@[i]).position,
            ) ==> spec_point_free(walls@, final(creatures)@[i].position),
{
    let mut i: usize = 0;
    while i < creatures.len()
        invariant
            0 <= i <= creatures@.len(),
            creatures@.len() == old(creatures)@.len(),
            forall|k: int| 0 <= k < walls@.len() ==> in_world(#[trigger] walls@[k]),
            forall|k: int|
                i <= k < old(creatures)@.len() ==> #[trigger] creatures@[k] == old(creatures)@[k],
            forall|k: int|
                0 <= k < old(creatures)@.len() ==> in_world(
                    (#[trigger] old(creatures)@[k]).position,
                ),
            forall|k: int|
                0 <= k < i ==> (#[trigger] creatures@[k]).position == spec_creature_step(
                    old(creatures)@[k],
                    walls@,
                ) && creatures@[k].velocity == old(creatures)@[k].velocity,
            forall|k: int|
                0 <= k < i && spec_point_free(
                    walls@,
                    (#[trigger] old(creatures)@[k]).position,
                ) ==> spec_point_free(walls@, creatures@[k].position),
        decreases creatures@.len() - i,
    {
        let c = creatures[i];
        match move_or_turn(&c.position, &c.direction, walls) {
            Some(new_position) => {
                let in_bounds = -crate::geometry::WORLD_LIMIT <= new_position.x && new_position.x
                    <= crate::geometry::WORLD_LIMIT && -crate::geometry::WORLD_LIMIT
                    <= new_position.y && new_position.y <= crate::geometry::WORLD_LIMIT;
                let roll = gen_percent(rng);
                let drawn = random_direction(rng);
                let nd = creature_turn(c.direction, roll, TURN_PROBABILITY, drawn);
                creatures[i] = CreatureEntity {
                    position: if in_bounds {
                        new_position
                    } else {
                        c.position
                    },
                    direction: nd,
                    velocity: c.velocity,
                };
            },
            None => {
                let drawn = random_direction(rng);
                creatures[i] = CreatureEntity {
                    position: c.position,
                    direction: drawn,
                    velocity: c.velocity,
                };
            },
        }
        i = i + 1;
    }
}

/// What kind of entity one side of a contact is, as the dispatch reads it.
#[derive(Clone, Copy, PartialEq, Eq, Structural, Debug)]
pub enum ContactKind {
    PlayerSide,
    CreatureSide,
    WallSide,
}

/// What the contact dispatch does about one started contact.
#[derive(Clone, Copy, PartialEq, Eq, Structural, Debug)]
pub enum ContactAction {
    /// The player on this contact dies: halt it and raise defeat.
    PlayerDies,
    /// The creature on the left side may turn: draw and turn half the time.
    CreatureMayTurn,
    /// The creature on the right side may turn.
    OtherCreatureMayTurn,
    /// Nothing to do.
    Ignore,
}

/// The contact dispatch: a player touching a creature dies; a creature
/// touching a wall may turn; everything else is ignored.
pub open spec fn spec_contact_outcome(left: ContactKind, right: ContactKind) -> ContactAction {
    match (left, right) {
        (ContactKind::PlayerSide, ContactKind::CreatureSide) => ContactAction::PlayerDies,
        (ContactKind::CreatureSide, ContactKind::PlayerSide) => ContactAction::PlayerDies,
        (ContactKind::CreatureSide, ContactKind::WallSide) => ContactAction::CreatureMayTurn,
        (ContactKind::WallSide, ContactKind::CreatureSide) => ContactAction::OtherCreatureMayTurn,
        _ => ContactAction::Ignore,
    }
}

/// Decides what one started contact means for the simulation.
pub fn handle_contact(left: ContactKind, right: ContactKind) -> (r: ContactAction)
    ensures
        r == spec_contact_outcome(left, right),
{
    match (left, right) {
        (ContactKind::PlayerSide, ContactKind::CreatureSide) => ContactAction::PlayerDies,
        (ContactKind::CreatureSide, ContactKind::PlayerSide) => ContactAction::PlayerDies,
        (ContactKind::CreatureSide, ContactKind::WallSide) => ContactAction::CreatureMayTurn,
        (ContactKind::WallSide, ContactKind::CreatureSide) => ContactAction::OtherCreatureMayTurn,
        _ => ContactAction::Ignore,
    }
}

/// The wall-bump reaction for one creature: draw a percentage and turn to
/// a random direction half the time.
pub fn creature_bump_turn(creature: &mut CreatureEntity, rng: &mut rand::rngs::ThreadRng)
    ensures
        final(creature).position == old(creature).position,
        final(creature).velocity == old(creature).velocity,
{
    let roll = gen_percent(rng);
    let drawn = random_direction(rng);
    if roll <= BUMP_TURN_PROBABILITY {
        creature.direction = drawn;
    }
}

/// The dying sequence attached to a player caught by a creature: the halt
/// marker, the blink period, and the removal countdown.
#[derive(Clone, Copy, PartialEq, Eq, Structural, Debug)]
pub struct StopAndFlashing(pub Stop, pub Animation, pub CountdownTimer);

impl Default for StopAndFlashing {
    /// A fresh dying sequence: a 200 ms blink period and three seconds
    /// until removal.
    fn default() -> (r: Self)
        ensures
            r.1.period_ms == 200,
            r.1.elapsed_ms == 0,
            r.2.remaining_ms == 3000,
    {
        StopAndFlashing(Stop, Animation::new(200), CountdownTimer::new(3000))
    }
}

/// A player in its dying sequence, waiting for removal.
#[derive(Clone, Copy, PartialEq, Eq, Structural, Debug)]
pub struct DyingPlayer {
    pub player: PlayerEntity,
    pub effects: StopAndFlashing,
}

/// A dying entry after `dt` elapses: only the removal countdown advances
/// here (the blink clock belongs to the renderer).
pub open spec fn spec_ticked_dying(d: DyingPlayer, dt: u32) -> DyingPlayer {
    DyingPlayer {
        effects: StopAndFlashing(
            d.effects.0,
            d.effects.1,
            CountdownTimer {
                remaining_ms: crate::components::spec_count_down(d.effects.2.remaining_ms, dt),
            },
        ),
        ..d
    }
}

/// The dying entries surviving a tick of `dt`: every countdown advances,
/// and exactly the entries whose countdown has run out are removed.
pub open spec fn spec_despawn_players(dying: Seq<DyingPlayer>, dt: u32) -> Seq<DyingPlayer>
    decreases dying.len(),
{
    if dying.len() == 0 {
        Seq::empty()
    } else {
        let rest = spec_despawn_players(dying.drop_first(), dt);
        if dt >= dying[0].effects.2.remaining_ms {
            rest
        } else {
            seq![spec_ticked_dying(dying[0], dt)] + rest
        }
    }
}

/// Unfolds `spec_despawn_players` around a processed prefix.
proof fn lemma_despawn_players_skip(dying: Seq<DyingPlayer>, dt: u32, i: int)
    requires
        0 <= i < dying.len(),
    ensures
        spec_despawn_players(dying.skip(i), dt) == if dt >= dying[i].effects.2.remaining_ms {
            spec_despawn_players(dying.skip(i + 1), dt)
        } else {
            seq![spec_ticked_dying(dying[i], dt)] + spec_despawn_players(dying.skip(i + 1), dt)
        },
{
    assert(dying.skip(i).drop_first() =~= dying.skip(i + 1));
    assert(dying.skip(i)[0] == dying[i]);
}

/// One removal tick over the dying players: each entry's countdown
/// advances by `dt`, and an entry whose countdown has run out is removed
/// for good.
pub fn despawn_player(dying: &mut Vec<DyingPlayer>, dt: u32)
    ensures
        final(dying)@ == spec_despawn_players(old(dying)@, dt),
{
    let ghost orig = dying@;
    let mut out: Vec<DyingPlayer> = Vec::new();
    let mut i: usize = 0;
    proof {
        assert(orig.skip(0) =~= orig);
        assert(Seq::<DyingPlayer>::empty() + spec_despawn_players(orig, dt)
            =~= spec_despawn_players(orig, dt));
    }
    while i < dying.len()
        invariant
            dying@ == orig,
            0 <= i <= orig.len(),
            out@ + spec_despawn_players(orig.skip(i as int), dt) == spec_despawn_players(orig, dt),
        decreases orig.len() - i,
    {
        proof {
            lemma_despawn_players_skip(orig, dt, i as int);
        }
        let d = dying[i];
        let rem = d.effects.2.remaining_ms;
        if dt < rem {
            let ticked = DyingPlayer {
                player: d.player,
                effects: StopAndFlashing(
                    d.effects.0,
                    d.effects.1,
                    CountdownTimer { remaining_ms: rem - dt },
                ),
            };
            proof {
                assert(ticked == spec_ticked_dying(orig[i as int], dt));
                assert(out@.push(ticked) + spec_despawn_players(orig.skip(i as int + 1), dt)
                    =~= out@ + spec_despawn_players(orig.skip(i as int), dt));
            }
            out.push(ticked);
        }
        i = i + 1;
    }
    proof {
        assert(orig.skip(orig.len() as int) =~= Seq::<DyingPlayer>::empty());
        assert(out@ + Seq::<DyingPlayer>::empty() =~= out@);
    }
    *dying = out;
}

} // verus!
