//! Pieces: a kind and a side.

use crate::board::Board;
use crate::coordinate::Coordinate;
use crate::position::{DIAGONAL_DIRS, KING_DIRS, KNIGHT_DELTAS, ORTHOGONAL_DIRS};
use vstd::prelude::*;

verus! {

/// One of the two sides.
#[derive(Clone, Copy, Debug, PartialEq, Eq, Structural)]
pub enum Colour {
    White,
    Black,
}

impl Colour {
    /// The other side.
    pub open spec fn spec_opposite(&self) -> Colour {
        match self {
            Colour::White => Colour::Black,
            Colour::Black => Colour::White,
        }
    }

    /// The other side.
    #[verifier::when_used_as_spec(spec_opposite)]
    pub fn opposite(&self) -> (other: Colour)
        ensures
            other == self.spec_opposite(),
    {
        match self {
            Colour::White => Colour::Black,
            Colour::Black => Colour::White,
        }
    }

    /// The change of rank when a pawn of this side advances one square.
    pub open spec fn spec_forward(&self) -> i8 {
        match self {
            Colour::White => 1i8,
            Colour::Black => -1i8,
        }
    }

    /// The change of rank when a pawn of this side advances one square.
    #[verifier::when_used_as_spec(spec_forward)]
    pub fn forward(&self) -> (step: i8)
        ensures
            step == self.spec_forward(),
    {
        match self {
            Colour::White => 1,
            Colour::Black => -1,
        }
    }

    /// The rank on which the pawns of this side start.
    pub open spec fn spec_pawn_rank(&self) -> u8 {
        match self {
            Colour::White => 1u8,
            Colour::Black => 6u8,
        }
    }

    /// The rank on which the pawns of this side start.
    #[verifier::when_used_as_spec(spec_pawn_rank)]
    pub fn pawn_rank(&self) -> (rank: u8)
        ensures
            rank == self.spec_pawn_rank(),
    {
        match self {
            Colour::White => 1,
            Colour::Black => 6,
        }
    }

    /// The rank on which the pieces of this side start, and the king castles.
    pub open spec fn spec_back_rank(&self) -> u8 {
        match self {
            Colour::White => 0u8,
            Colour::Black => 7u8,
        }
    }

    /// The rank on which the pieces of this side start, and the king castles.
    #[verifier::when_used_as_spec(spec_back_rank)]
    pub fn back_rank(&self) -> (rank: u8)
        ensures
            rank == self.spec_back_rank(),
    {
        match self {
            Colour::White => 0,
            Colour::Black => 7,
        }
    }
}

/// The six kinds of piece.
#[derive(Clone, Copy, Debug, PartialEq, Eq, Structural)]
pub enum PieceType {
    Pawn,
    Knight,
    Bishop,
    Rook,
    Queen,
    King,
}

/// A piece: its kind and its side. A piece has no identity beyond these.
#[derive(Clone, Copy, Debug, PartialEq, Eq, Structural)]
pub struct Piece {
    pub piece_type: PieceType,
    pub colour: Colour,
}

impl Piece {
    /// A piece of the given kind and side.
    pub fn new(piece_type: PieceType, colour: Colour) -> (piece: Piece)
        ensures
            piece == (Piece { piece_type, colour }),
    {
        Piece { piece_type, colour }
    }

    /// A pawn of the given side.
    pub fn pawn(colour: Colour) -> (piece: Piece)
        ensures
            piece == (Piece { piece_type: PieceType::Pawn, colour }),
    {
        Piece { piece_type: PieceType::Pawn, colour }
    }

    /// A knight of the given side.
    pub fn knight(colour: Colour) -> (piece: Piece)
        ensures
            piece == (Piece { piece_type: PieceType::Knight, colour }),
    {
        Piece { piece_type: PieceType::Knight, colour }
    }

    /// A bishop of the given side.
    pub fn bishop(colour: Colour) -> (piece: Piece)
        ensures
            piece == (Piece { piece_type: PieceType::Bishop, colour }),
    {
        Piece { piece_type: PieceType::Bishop, colour }
    }

    /// A rook of the given side.
    pub fn rook(colour: Colour) -> (piece: Piece)
        ensures
            piece == (Piece { piece_type: PieceType::Rook, colour }),
    {
        Piece { piece_type: PieceType::Rook, colour }
    }

    /// A queen of the given side.
    pub fn queen(colour: Colour) -> (piece: Piece)
        ensures
            piece == (Piece { piece_type: PieceType::Queen, colour }),
    {
        Piece { piece_type: PieceType::Queen, colour }
    }

    /// A king of the given side.
    pub fn king(colour: Colour) -> (piece: Piece)
        ensures
            piece == (Piece { piece_type: PieceType::King, colour }),
    {
        Piece { piece_type: PieceType::King, colour }
    }
}

impl PieceType {
    /// Where a piece of this kind and of the side of `piece` can go from `position` if it may
    /// leave its own king in check, whoever is to move and whatever stands on `position`.
    pub fn generate_pseudo_legal_moves(&self, board: &Board, piece: &Piece, position: Coordinate) -> (reached:
        Vec<Coordinate>)
        ensures
            reached@ == board@.destinations(position, *self, piece.colour),
            forall|i: int| 0 <= i < reached@.len() ==> (#[trigger] reached@[i]).is_valid(),
    {
        match self {
            PieceType::Pawn => pseudo_pawn_moves(board, piece, position),
            PieceType::Knight => pseudo_knight_moves(board, piece, position),
            PieceType::Bishop => pseudo_bishop_moves(board, piece, position),
            PieceType::Rook => pseudo_rook_moves(board, piece, position),
            PieceType::Queen => pseudo_queen_moves(board, piece, position),
            PieceType::King => pseudo_king_moves(board, piece, position),
        }
    }
}

/// Where a pawn of the side of `piece` can go from `position`.
pub fn pseudo_pawn_moves(board: &Board, piece: &Piece, position: Coordinate) -> (reached: Vec<
    Coordinate,
>)
    ensures
        reached@ == board@.destinations(position, PieceType::Pawn, piece.colour),
        forall|i: int| 0 <= i < reached@.len() ==> (#[trigger] reached@[i]).is_valid(),
{
    board.pawn_destinations(&position, piece.colour)
}

/// Where a knight of the side of `piece` can go from `position`.
pub fn pseudo_knight_moves(board: &Board, piece: &Piece, position: Coordinate) -> (reached: Vec<
    Coordinate,
>)
    ensures
        reached@ == board@.destinations(position, PieceType::Knight, piece.colour),
        forall|i: int| 0 <= i < reached@.len() ==> (#[trigger] reached@[i]).is_valid(),
{
    board.step_destinations(&position, piece.colour, &KNIGHT_DELTAS)
}

/// Where a bishop of the side of `piece` can go from `position`.
pub fn pseudo_bishop_moves(board: &Board, piece: &Piece, position: Coordinate) -> (reached: Vec<
    Coordinate,
>)
    ensures
        reached@ == board@.destinations(position, PieceType::Bishop, piece.colour),
        forall|i: int| 0 <= i < reached@.len() ==> (#[trigger] reached@[i]).is_valid(),
{
    board.slide_destinations(&position, piece.colour, &DIAGONAL_DIRS)
}

/// Where a rook of the side of `piece` can go from `position`.
pub fn pseudo_rook_moves(board: &Board, piece: &Piece, position: Coordinate) -> (reached: Vec<
    Coordinate,
>)
    ensures
        reached@ == board@.destinations(position, PieceType::Rook, piece.colour),
        forall|i: int| 0 <= i < reached@.len() ==> (#[trigger] reached@[i]).is_valid(),
{
    board.slide_destinations(&position, piece.colour, &ORTHOGONAL_DIRS)
}

/// Where a queen of the side of `piece` can go from `position`.
pub fn pseudo_queen_moves(board: &Board, piece: &Piece, position: Coordinate) -> (reached: Vec<
    Coordinate,
>)
    ensures
        reached@ == board@.destinations(position, PieceType::Queen, piece.colour),
        forall|i: int| 0 <= i < reached@.len() ==> (#[trigger] reached@[i]).is_valid(),
{
    board.slide_destinations(&position, piece.colour, &KING_DIRS)
}

/// Where a king of the side of `piece` can go from `position`, castling apart.
pub fn pseudo_king_moves(board: &Board, piece: &Piece, position: Coordinate) -> (reached: Vec<
    Coordinate,
>)
    ensures
        reached@ == board@.destinations(position, PieceType::King, piece.colour),
        forall|i: int| 0 <= i < reached@.len() ==> (#[trigger] reached@[i]).is_valid(),
{
    board.step_destinations(&position, piece.colour, &KING_DIRS)
}

} // verus!
