//! A snake game engine on a square, wrap-around grid.
//!
//! The engine owns the whole state of one game: the grid, the snake, the
//! reward cell, the score and the status. A host drives it with ticks and
//! turns, renders what the accessors report, and supplies the random draws
//! from which reward cells are placed.
//!
//! Every function is verified against a mathematical model of the game:
//! [`game::Game`] describes a state and its transitions, [`world::World`] is
//! the executable state whose view is such a `Game`.

pub mod game;
pub mod game_laws;
pub mod grid;
pub mod world;

pub use game::GameStatus;
pub use grid::Direction;
pub use world::{SnakeCell, World};
