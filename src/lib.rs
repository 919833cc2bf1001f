//! A snake simulation on a fixed square grid: movement and growth, collision
//! detection, food placement that avoids the snake, score and high-score
//! tracking, and the fixed-interval tick state machine.

pub mod snake;
pub mod food;
pub mod highscore;
pub mod game;
