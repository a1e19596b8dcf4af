//! The state engine of a terminal snake game: the snake's body, its movement
//! and growth, collision and boundary checks, and pellet placement.

mod game;

pub use game::{
    opposite_direction, CanvasState, Coord, Direction, TickResult, BLOCK_WIDTH, DEFAULT_HEIGHT,
    DEFAULT_WIDTH, MAX_SIDE,
};
