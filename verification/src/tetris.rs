//! Tiles, tetrads, the queue and the game session.

pub mod tile;
pub mod tetrad;
pub mod board;
pub mod queue;
pub mod lines;
pub mod overlay;
pub mod session;
pub mod render;
pub mod compact;
