//! A deterministic multiplayer blackjack engine.
//!
//! The engine is driven by an ordered stream of instructions coming from a
//! rollup coordinator: every replica that replays the same instruction
//! sequence reaches the same game state. All pseudo-randomness is derived
//! from coordinator-supplied timestamps, so draws are reproducible (and,
//! deliberately, not cryptographically unpredictable).

pub mod cards;
pub mod codec;
pub mod dispatch;
pub mod errors;
pub mod game;
pub mod manager;
pub mod ops;
pub mod payload;
pub mod player;
pub mod score;
