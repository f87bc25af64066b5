//! Rules core of a chess engine: coordinates, pieces, the board, move
//! generation, check detection and move application.

pub mod board;
pub mod check;
pub mod coordinate;
pub mod error;
pub mod generate;
pub mod laws;
pub mod legal;
pub mod moves;
pub mod piece;
pub mod position;
pub mod reach;
