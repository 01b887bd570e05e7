//! A snake game on a walled grid: the snake's movement and growth, collision
//! rules, food placement and the per-tick decisions of the game loop.
pub mod grid;
pub mod snake;
pub mod food;
pub mod game;
