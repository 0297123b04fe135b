//! Colors, the storage behind a board, and the board itself.

pub mod cells;
pub mod grid;
pub mod paint;
pub mod rgb;
