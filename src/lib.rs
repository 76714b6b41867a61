//! Game logic of a grid-based snake game: the board, the snake's movement and
//! collision rule, food placement, and the per-tick state update.
pub mod grid;
pub mod snake;
pub mod food;
pub mod game;
pub mod laws;
