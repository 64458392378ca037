//! Rule engine of a snake game on a wrap-around grid: the board geometry, the
//! game state with its single step, keyboard input and a fixed-tick scheduler.

pub mod board;
pub mod game;
pub mod input;
pub mod scheduler;
