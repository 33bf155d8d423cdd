//! Deterministic simulation core of a grid snake game.
//!
//! The snake is an ordered sequence of grid cells (head first) together with
//! a heading. Each movement tick advances the head one cell in the heading,
//! cascades every other segment into its predecessor's old cell, grows the
//! body by one segment when the new head lands on the food, and resets the
//! whole state when the head leaves the board or runs into the body. Food is
//! placed on an independent, slower tick, always on an unoccupied cell.

pub mod components;
pub mod engine;
pub mod model;
pub mod spawner;

pub use components::{Axial, Direction, GridConfig, Position};
pub use engine::{GameState, MovementReport};
pub use spawner::spawn_food;
