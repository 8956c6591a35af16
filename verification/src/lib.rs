//! A snake game on simulated terrain. A snake moves over a large grid of
//! cells. Each cell has a floor (empty ground, water, lava, a plant), an
//! object on it (a wall, food, a piece of the snake, the border) and an
//! elevation. On every tick the whole grid moves on by local rules: liquid
//! flows downhill, plants grow and spread near water, and what the snake
//! left behind fades.
//!
//! - `types`, `snake`, `board`, `board_ops`, `state`: the data.
//! - `art`, `shapes`, `text`, `scoreboard`: changing cells, and drawing with
//!   them.
//! - `chance`: random numbers.
//! - `logic`: the rules for one cell.
//! - `schedule`: one tick of the whole board, shared out over threads.
//! - `conserve`: that a tick keeps the water on the board.
//! - `levels`, `game`: the levels and the steps of the game.
//! - `draw`: what a renderer needs worked out.

pub mod types;
pub mod snake;
pub mod art;
pub mod shapes;
pub mod board;
pub mod board_ops;
pub mod chance;
pub mod state;
pub mod text;
pub mod logic;
pub mod schedule;
pub mod scoreboard;
pub mod levels;
pub mod game;
pub mod draw;
pub mod conserve;
