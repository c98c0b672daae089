//! A snake game on a wrapping grid: the snake, the board with its fruit, the
//! per-frame decisions of the game loop and the timer that paces them.
//!
//! Everything here is state and rules. Reading keys and painting the terminal
//! is left to the program that drives the game.

pub mod game;
pub mod snake;
pub mod random;
pub mod sprite;
pub mod timer;
