//! An explorable hex-grid world: axial hex geometry, the streaming of
//! fixed-size chunks around a player, and the state machine that moves
//! the player from tile to tile.
//!
//! The library decides; a host draws. Each tick the host hands over the
//! keys that went down and the time that passed, and gets back what to
//! spawn, what to destroy and where to draw the player.

pub mod chunks;
pub mod display;
pub mod game;
pub mod hex;
pub mod input;
pub mod materialize;
pub mod mesh;
pub mod movement;
pub mod registry;
