//! An engine for games of paddles, walls, balls and scores.
//!
//! The engine keeps four logics in step: collision, physics, resources and
//! control. It names the entities of a game, adds and removes them, and ties
//! what happens in one logic to what is to be done in another.

pub mod engine;
pub mod events;
pub mod frame;
pub mod ids;
pub mod state;
pub mod types;
