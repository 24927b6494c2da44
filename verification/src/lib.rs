//! A grid-based snake game core: deterministic simulation of movement,
//! collision detection, food and hazard spawning, growth and shrink
//! mechanics, and the greedy single-step heuristic used by autonomous
//! snakes. Rendering and input polling live outside this crate; the
//! simulation here is verified.

pub mod competitive;
pub mod game;
pub mod grid;
pub mod mover;
mod rng;
pub mod rules;
pub mod single;
pub mod spawn;
