//! Simulation core of a grid-based snake game.

pub mod direction;
pub mod game;
pub mod input;
mod rng;
pub mod snake;
