//! Verified core of a two-mode grid toy.
//!
//! In puzzle mode a single player steps across a tile grid, one tile per fixed
//! time interval, pushing movable blocks and being blocked by immovable ones.
//! In life mode the block layout is reinterpreted as a cellular automaton that
//! evolves under the Game-of-Life rule on its own fixed interval. A pause
//! layer independently freezes both simulations.
//!
//! The host loop (windowing, rendering, key sampling, file reading) stays
//! outside this crate; it feeds plain frame inputs into [`world::World::tick`]
//! and renders whatever state comes back.

pub mod grid;
pub mod laws;
pub mod level;
pub mod life;
pub mod movement;
pub mod push;
pub mod state;
pub mod timer;
pub mod world;
