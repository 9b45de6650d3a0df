//! A solver for 9x9 number-placement puzzles by depth-first search with
//! chronological backtracking, and the counting side of a Monte Carlo door
//! game.
//!
//! - [`rules`]: when a grid is valid and when it is complete.
//! - [`moves`]: moves and the order in which they are listed.
//! - [`state`]: the model of a grid in play, and the laws of making a move
//!   and taking it back.
//! - [`board`], [`new_board`]: the boards themselves.
//! - [`search`], [`solver`]: what a solution is, which one is found, and the
//!   search that finds it.
//! - [`render`]: a grid as text.
//! - [`samples`]: grids to try the search on.
//! - [`result`], [`door_riddle`]: the door game's counters and its rounds.
//! - [`workers`]: the split of trials among workers, and the sum of what
//!   they counted.

pub mod board;
pub mod door_riddle;
pub mod moves;
pub mod new_board;
pub mod render;
pub mod result;
pub mod rules;
pub mod samples;
pub mod search;
pub mod solver;
pub mod state;
pub mod workers;
