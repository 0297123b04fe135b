//! A falling-block puzzle engine on a rectangular grid of tiles: the board
//! with its occupancy rules, the seven tetrads and their rigid motions, the
//! shuffled-bag queue, and the game session that ties them together.
//! Every function carries a machine-checked contract.

pub mod grid;
pub mod tetris;
