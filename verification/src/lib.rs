//! A terminal hidden-object game core: a bounded grid arena in which one goal
//! item and several decoy items are placed at uniformly random, pairwise
//! distinct interior cells, and a player cursor moves about uncovering them.
//!
//! This crate holds the verified game logic: arena construction and item
//! placement, the player movement state machine, and command decoding.
//! Terminal rendering and key input live outside, in the program around the
//! library; they exchange plain values with it.

pub mod arena;
pub mod command;
pub mod coord;
pub mod player;
pub mod rng;
