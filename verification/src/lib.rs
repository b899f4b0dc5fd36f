//! A tetromino game engine: piece geometry, rotation systems, piece generation,
//! game modes and the event-driven game state machine, with their contracts proved by Verus.

pub mod pieces;
pub mod rotation;
pub mod modes;
pub mod generation;
pub mod events;
pub mod game;
pub mod text;
pub mod laws;
pub mod puzzle;
pub mod view;

pub mod menus;
pub mod scores;
