//! Core logic of a grid-based arena game: tile geometry, movement with
//! corner assist, bomb lifecycle, explosion propagation, and destruction
//! resolution, all over integer world coordinates and millisecond timers.
//!
//! Modules, leaves first: [`geometry`] holds the tile constants, the one
//! AABB overlap predicate, and the world/grid conversions; [`map`] the
//! immutable level grid; [`components`] the entity components and timers;
//! [`movement`] the per-tick movement resolver with its corner assist;
//! [`bomb`] placement snapping, the explosion propagator and the
//! destruction resolver; [`game`] the running level's entity set with the
//! bomb-accounting invariant and the per-tick systems; [`creatures`] the
//! creatures' random-turn decisions; [`animate`] sprite-index selection;
//! [`setup`] the map-to-spawn-plan pass; [`state`] the menu state machine;
//! [`bases`] the player-over-floor probe.

pub mod animate;
pub mod bases;
pub mod bomb;
pub mod components;
pub mod creatures;
pub mod game;
pub mod geometry;
pub mod map;
pub mod movement;
pub mod setup;
pub mod state;
