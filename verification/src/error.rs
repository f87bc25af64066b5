//! The conditions under which an operation of the library fails.

use crate::piece::PieceType;
use vstd::prelude::*;

verus! {

/// Why a square does not hold the piece that a move generator was asked about.
#[derive(Clone, Copy, Debug, PartialEq, Eq, Structural)]
pub enum PieceMismatch {
    /// The square is empty.
    EmptySquare,
    /// The square holds a piece of another kind than the one named.
    WrongKind(PieceType),
    /// The square holds a piece of the side that is not to move.
    WrongSide,
}

/// A failed operation.
#[derive(Clone, Copy, Debug, PartialEq, Eq, Structural)]
pub enum ChessError {
    /// A coordinate, or the result of offsetting one, lies off the grid.
    OutOfBounds,
    /// A move generator was pointed at a square that does not hold the piece it needs.
    WrongPiece(PieceMismatch),
    /// The board holds no king of the colour asked about.
    NoKing,
    /// A move names a piece that does not stand on its origin square.
    InvalidMove,
}

impl PieceMismatch {
    /// The text of `message`.
    pub open spec fn message_text(self) -> Seq<char> {
        match self {
            PieceMismatch::EmptySquare => "No piece at the given position"@,
            PieceMismatch::WrongKind(PieceType::Pawn) =>
                "The piece at the given position is not a Pawn"@,
            PieceMismatch::WrongKind(PieceType::Knight) =>
                "The piece at the given position is not a Knight"@,
            PieceMismatch::WrongKind(PieceType::Bishop) =>
                "The piece at the given position is not a Bishop"@,
            PieceMismatch::WrongKind(PieceType::Rook) =>
                "The piece at the given position is not a Rook"@,
            PieceMismatch::WrongKind(PieceType::Queen) =>
                "The piece at the given position is not a Queen"@,
            PieceMismatch::WrongKind(PieceType::King) =>
                "The piece at the given position is not a King"@,
            PieceMismatch::WrongSide =>
                "The piece at the given position belongs to the side not to move"@,
        }
    }

    /// A description of the mismatch for a human reader.
    pub fn message(&self) -> (text: String)
        ensures
            text@ == self.message_text(),
    {
        match self {
            PieceMismatch::EmptySquare => "No piece at the given position".to_string(),
            PieceMismatch::WrongKind(PieceType::Pawn) => {
                "The piece at the given position is not a Pawn".to_string()
            },
            PieceMismatch::WrongKind(PieceType::Knight) => {
                "The piece at the given position is not a Knight".to_string()
            },
            PieceMismatch::WrongKind(PieceType::Bishop) => {
                "The piece at the given position is not a Bishop".to_string()
            },
            PieceMismatch::WrongKind(PieceType::Rook) => {
                "The piece at the given position is not a Rook".to_string()
            },
            PieceMismatch::WrongKind(PieceType::Queen) => {
                "The piece at the given position is not a Queen".to_string()
            },
            PieceMismatch::WrongKind(PieceType::King) => {
                "The piece at the given position is not a King".to_string()
            },
            PieceMismatch::WrongSide => {
                "The piece at the given position belongs to the side not to move".to_string()
            },
        }
    }
}

impl ChessError {
    /// The text of `message`.
    pub open spec fn message_text(self) -> Seq<char> {
        match self {
            ChessError::OutOfBounds => "Coordinates out of bounds"@,
            ChessError::WrongPiece(mismatch) => mismatch.message_text(),
            ChessError::NoKing => "No king found for the given colour"@,
            ChessError::InvalidMove => "The moving piece is not on its origin square"@,
        }
    }

    /// A description of the failure for a human reader.
    pub fn message(&self) -> (text: String)
        ensures
            text@ == self.message_text(),
    {
        match self {
            ChessError::OutOfBounds => "Coordinates out of bounds".to_string(),
            ChessError::WrongPiece(mismatch) => mismatch.message(),
            ChessError::NoKing => "No king found for the given colour".to_string(),
            ChessError::InvalidMove => "The moving piece is not on its origin square".to_string(),
        }
    }
}

} // verus!
