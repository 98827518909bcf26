//! State-tracking core of a client for a turn-based, grid-world,
//! multi-agent contest.
//!
//! The library consumes the game's line-oriented text protocol: a setup
//! handshake is parsed once into [`params::Params`], after which a
//! [`world::World`] reconstructs a partially observable toroidal grid from
//! per-turn diff lines and emits move commands.  Everything here is pure
//! state and parsing; reading lines and writing commands is left to the
//! surrounding program.

pub mod ant;
pub mod bot;
pub mod direction;
pub mod error;
pub mod grid;
pub mod params;
pub mod parse;
pub mod player;
pub mod point;
pub mod tile;
pub mod world;
