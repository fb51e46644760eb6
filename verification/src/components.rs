//! The simulation's component types: markers, stats, timers, directions and
//! the destruction-outcome tags, plus the sprite-index tables.
//!
//! Timers count down in integer milliseconds; a tick is exact, so the fuse
//! and blast lifetimes below are deterministic countdowns.

use vstd::prelude::*;
use core::marker::PhantomData;

verus! {

/// Marker: a solid, non-walkable entity; blocks movement and blasts.
#[derive(Clone, Copy, PartialEq, Eq, Structural, Debug)]
pub struct Wall;

/// Marker: an open, walkable floor tile entity.
#[derive(Clone, Copy, PartialEq, Eq, Structural, Debug)]
pub struct Way;

/// Marker: a floor tile that speeds entities up.
#[derive(Clone, Copy, PartialEq, Eq, Structural, Debug)]
pub struct SpeedWay;

/// Marker: the player entity.
#[derive(Clone, Copy, PartialEq, Eq, Structural, Debug)]
pub struct Player {
    pub is_moving: bool,
}

/// Marker: the level-exit portal entity.
#[derive(Clone, Copy, PartialEq, Eq, Structural, Debug)]
pub struct Portal;

/// Marker: the entity is halted (paused or dying) and skips its systems.
#[derive(Clone, Copy, PartialEq, Eq, Structural, Debug)]
pub struct Stop;

/// Marker: a sensor collider attached to the player.
#[derive(Clone, Copy, PartialEq, Eq, Structural, Debug)]
pub struct PlayerSensor;

/// Marker: an entity that belongs to the running level and is despawned on exit.
#[derive(Clone, Copy, PartialEq, Eq, Structural, Debug)]
pub struct InGame;

/// A pickup left behind by a destroyed buff box.
#[derive(Clone, Copy, PartialEq, Eq, Structural, Debug)]
pub enum Buff {
    PowerBuff,
    SpeedBuff,
    BombNumberBuff,
}

#[derive(Clone, Copy, PartialEq, Eq, Structural, Debug)]
pub enum GameMode {
    SinglePlayer,
    MultiPlayer,
}

/// Destruction-outcome variant of an entity a blast can destroy.
#[derive(Clone, Copy, PartialEq, Eq, Structural, Debug)]
pub enum Destructible {
    NormalBox,
    PowerBuffBox,
    SpeedBuffBox,
    BombNumberBuffBox,
    Portal,
    Player,
    Creature,
}

/// A generic {max, current} counter pair.
#[derive(Clone, Copy, PartialEq, Eq, Structural, Debug)]
pub struct MaxAndCurrent(i32, i32);

/// Current and maximum speed; current is snapped to max or 0 by input,
/// never an intermediate value.
#[derive(Clone, Copy, PartialEq, Eq, Structural, Debug)]
pub struct Velocity {
    pub current: i32,
    pub max: i32,
}

/// Blast radius, in tiles, of the bombs a player places.
#[derive(Clone, Copy, PartialEq, Eq, Structural, Debug)]
pub struct BombPower(pub i32);

/// Per-player active-bomb accounting: `current` rises on placement and
/// falls when one of that player's bombs detonates.
#[derive(Clone, Copy, PartialEq, Eq, Structural, Debug)]
pub struct BombNumber {
    pub max: i32,
    pub current: i32,
}

impl BombNumber {
    /// True iff the player may place one more bomb.
    pub fn is_enough(&self) -> (r: bool)
        ensures
            r == (self.current < self.max),
    {
        self.current < self.max
    }
}

/// One of the four cardinal directions; drives both the movement vector
/// and sprite selection.
#[derive(Clone, Copy, PartialEq, Eq, Structural, Debug)]
pub enum Direction {
    Left,
    Up,
    Right,
    Down,
}

/// Lifetime of the center blast cell, in milliseconds.
pub const FIRE_LIFETIME_MS: u32 = 500;
/// Period of one blast-sprite animation frame, in milliseconds.
pub const FIRE_ANIMATE_TIME_MS: u32 = 50;
/// Lifetime of an edge blast cell: shorter than the center by three
/// animation frames, so edges resolve slightly before the center.
pub const EMBER_LIFETIME_MS: u32 = FIRE_LIFETIME_MS - FIRE_ANIMATE_TIME_MS * 3;
/// Delay after detonation before the edge cells are created.
pub const EMBER_START_TIME_MS: u32 = FIRE_LIFETIME_MS - EMBER_LIFETIME_MS;
/// Fuse duration of a freshly placed bomb, in milliseconds.
pub const BOMB_FUSE_MS: u32 = 3000;

/// Remaining time of a one-shot countdown after `dt` elapses.
pub open spec fn spec_count_down(remaining: u32, dt: u32) -> u32 {
    if dt >= remaining {
        0u32
    } else {
        (remaining - dt) as u32
    }
}

/// A one-shot countdown in milliseconds; finished when it reaches zero.
#[derive(Clone, Copy, PartialEq, Eq, Structural, Debug)]
pub struct CountdownTimer {
    pub remaining_ms: u32,
}

impl CountdownTimer {
    pub fn new(duration_ms: u32) -> (r: Self)
        ensures
            r.remaining_ms == duration_ms,
    {
        CountdownTimer { remaining_ms: duration_ms }
    }

    /// Advances the countdown by `dt` milliseconds; returns true iff the
    /// countdown has (now or earlier) run out.
    pub fn tick(&mut self, dt: u32) -> (finished: bool)
        ensures
            final(self).remaining_ms == spec_count_down(old(self).remaining_ms, dt),
            finished == (final(self).remaining_ms == 0),
    {
        if dt >= self.remaining_ms {
            self.remaining_ms = 0;
        } else {
            self.remaining_ms = self.remaining_ms - dt;
        }
        self.remaining_ms == 0
    }

    pub fn finished(&self) -> (r: bool)
        ensures
            r == (self.remaining_ms == 0),
    {
        self.remaining_ms == 0
    }
}

/// A repeating timer for sprite animation; `tick` reports each time a full
/// period elapses.
#[derive(Clone, Copy, PartialEq, Eq, Structural, Debug)]
pub struct Animation {
    pub period_ms: u32,
    pub elapsed_ms: u32,
}

impl Animation {
    pub fn new(period_ms: u32) -> (r: Self)
        ensures
            r.period_ms == period_ms,
            r.elapsed_ms == 0,
    {
        Animation { period_ms, elapsed_ms: 0 }
    }

    /// Advances the animation clock; returns true iff a period boundary was
    /// crossed, in which case the clock wraps.
    pub fn tick(&mut self, dt: u32) -> (just_finished: bool)
        requires
            0 < old(self).period_ms <= 1_000_000_000,
            old(self).elapsed_ms < old(self).period_ms,
            dt <= 1_000_000_000,
        ensures
            final(self).period_ms == old(self).period_ms,
            just_finished == (old(self).elapsed_ms + dt >= old(self).period_ms),
            final(self).elapsed_ms == (old(self).elapsed_ms + dt) % (old(self).period_ms as int),
            final(self).elapsed_ms < final(self).period_ms,
    {
        let total = self.elapsed_ms + dt;
        if total >= self.period_ms {
            self.elapsed_ms = total % self.period_ms;
            true
        } else {
            proof {
                vstd::arithmetic::div_mod::lemma_small_mod(
                    (old(self).elapsed_ms + dt) as nat,
                    old(self).period_ms as nat,
                );
            }
            self.elapsed_ms = total;
            false
        }
    }
}

/// The center blast cell's lifetime.
#[derive(Clone, Copy, PartialEq, Eq, Structural, Debug)]
pub struct Fire(pub CountdownTimer);

impl Fire {
    /// A fresh center cell, alive for the full fire lifetime.
    pub fn new() -> (r: Self)
        ensures
            r.0.remaining_ms == FIRE_LIFETIME_MS,
    {
        Fire(CountdownTimer::new(FIRE_LIFETIME_MS))
    }

    /// A fresh edge cell, with the shorter ember lifetime.
    pub fn ember() -> (r: Self)
        ensures
            r.0.remaining_ms == EMBER_LIFETIME_MS,
    {
        Fire(CountdownTimer::new(EMBER_LIFETIME_MS))
    }
}

/// The delayed propagation trigger carried by a center blast cell: when its
/// countdown runs out, the edge cells are created with the stored power.
#[derive(Clone, Copy, PartialEq, Eq, Structural, Debug)]
pub struct Ember(pub CountdownTimer, pub i32);

impl Ember {
    pub fn new(power: i32) -> (r: Self)
        ensures
            r.0.remaining_ms == EMBER_START_TIME_MS,
            r.1 == power,
    {
        Ember(CountdownTimer::new(EMBER_START_TIME_MS), power)
    }
}

/// A ticking bomb: its fuse and the identifier of the player who placed it,
/// kept to refund that player's bomb slot at detonation.
#[derive(Clone, Copy, PartialEq, Eq, Structural, Debug)]
pub struct Bomb {
    pub timer: CountdownTimer,
    pub player: u32,
}

impl Bomb {
    pub fn new(player: u32) -> (r: Self)
        ensures
            r.timer.remaining_ms == BOMB_FUSE_MS,
            r.player == player,
    {
        Bomb { timer: CountdownTimer::new(BOMB_FUSE_MS), player }
    }
}

pub const NEXT_PLAYER_SHEET: u32 = 14;

/// Per-direction sprite-index tables for a walking character; the marker
/// type parameter ties a table to the entity kind it animates.
pub struct AnimateIndexs<T> {
    pub left: Vec<u32>,
    pub right: Vec<u32>,
    pub up: Vec<u32>,
    pub down: Vec<u32>,
    pub _mark: PhantomData<T>,
}

impl<T> AnimateIndexs<T> {
    pub fn player1() -> (r: Self)
        ensures
            r.left@ == seq![10u32, 11u32, 12u32, 13u32],
            r.right@ == seq![4u32, 5u32, 6u32, 7u32],
            r.up@ == seq![0u32, 8u32, 9u32],
            r.down@ == seq![1u32, 2u32, 3u32],
    {
        let left = vec![10, 11, 12, 13];
        let right = vec![4, 5, 6, 7];
        let up = vec![0, 8, 9];
        let down = vec![1, 2, 3];
        Self { left, right, up, down, _mark: PhantomData }
    }

    pub fn player2() -> (r: Self)
        ensures
            r.left@ == seq![24u32, 25u32, 26u32, 27u32],
            r.right@ == seq![18u32, 19u32, 20u32, 21u32],
            r.up@ == seq![14u32, 22u32, 23u32],
            r.down@ == seq![15u32, 16u32, 17u32],
    {
        let left = vec![24, 25, 26, 27];
        let right = vec![18, 19, 20, 21];
        let up = vec![14, 22, 23];
        let down = vec![15, 16, 17];
        Self { left, right, up, down, _mark: PhantomData }
    }

    pub fn player3() -> (r: Self)
        ensures
            r.left@ == seq![38u32, 39u32, 40u32, 41u32],
            r.right@ == seq![32u32, 33u32, 34u32, 35u32],
            r.up@ == seq![28u32, 36u32, 37u32],
            r.down@ == seq![29u32, 30u32, 31u32],
    {
        let left = vec![38, 39, 40, 41];
        let right = vec![32, 33, 34, 35];
        let up = vec![28, 36, 37];
        let down = vec![29, 30, 31];
        Self { left, right, up, down, _mark: PhantomData }
    }

    pub fn player4() -> (r: Self)
        ensures
            r.left@ == seq![52u32, 53u32, 54u32, 55u32],
            r.right@ == seq![46u32, 47u32, 48u32, 49u32],
            r.up@ == seq![42u32, 50u32, 51u32],
            r.down@ == seq![43u32, 44u32, 45u32],
    {
        let left = vec![52, 53, 54, 55];
        let right = vec![46, 47, 48, 49];
        let up = vec![42, 50, 51];
        let down = vec![43, 44, 45];
        Self { left, right, up, down, _mark: PhantomData }
    }
}

} // verus!
