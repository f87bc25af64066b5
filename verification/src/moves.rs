//! Moves and castling rights.

use crate::coordinate::Coordinate;
use crate::piece::{Colour, Piece, PieceType};
use vstd::prelude::*;

verus! {

/// The two wings on which a king may castle.
#[derive(Clone, Copy, Debug, PartialEq, Eq, Structural)]
pub enum CastlingSide {
    Kingside,
    Queenside,
}

impl CastlingSide {
    /// The file on which the rook of this wing starts.
    pub open spec fn spec_rook_file(&self) -> u8 {
        match self {
            CastlingSide::Kingside => 7u8,
            CastlingSide::Queenside => 0u8,
        }
    }

    /// The file on which the rook of this wing starts.
    #[verifier::when_used_as_spec(spec_rook_file)]
    pub fn rook_file(&self) -> (file: u8)
        ensures
            file == self.spec_rook_file(),
    {
        match self {
            CastlingSide::Kingside => 7,
            CastlingSide::Queenside => 0,
        }
    }

    /// The file on which the rook stands after castling on this wing, which is also the file
    /// that the king passes over.
    pub open spec fn spec_rook_target_file(&self) -> u8 {
        match self {
            CastlingSide::Kingside => 5u8,
            CastlingSide::Queenside => 3u8,
        }
    }

    /// The file on which the rook stands after castling on this wing, which is also the file
    /// that the king passes over.
    #[verifier::when_used_as_spec(spec_rook_target_file)]
    pub fn rook_target_file(&self) -> (file: u8)
        ensures
            file == self.spec_rook_target_file(),
    {
        match self {
            CastlingSide::Kingside => 5,
            CastlingSide::Queenside => 3,
        }
    }

    /// The file on which the king stands after castling on this wing.
    pub open spec fn spec_king_target_file(&self) -> u8 {
        match self {
            CastlingSide::Kingside => 6u8,
            CastlingSide::Queenside => 2u8,
        }
    }

    /// The file on which the king stands after castling on this wing.
    #[verifier::when_used_as_spec(spec_king_target_file)]
    pub fn king_target_file(&self) -> (file: u8)
        ensures
            file == self.spec_king_target_file(),
    {
        match self {
            CastlingSide::Kingside => 6,
            CastlingSide::Queenside => 2,
        }
    }
}

/// The file on which both kings start.
pub const KING_FILE: u8 = 4;

/// Whether one side may still castle, wing by wing.
#[derive(Clone, Copy, Debug, PartialEq, Eq, Structural)]
pub struct CastlingRights {
    pub kingside: bool,
    pub queenside: bool,
}

impl CastlingRights {
    /// The right for one wing.
    pub open spec fn spec_allows(&self, side: CastlingSide) -> bool {
        match side {
            CastlingSide::Kingside => self.kingside,
            CastlingSide::Queenside => self.queenside,
        }
    }

    /// The right for one wing.
    #[verifier::when_used_as_spec(spec_allows)]
    pub fn allows(&self, side: CastlingSide) -> (allowed: bool)
        ensures
            allowed == self.spec_allows(side),
    {
        match side {
            CastlingSide::Kingside => self.kingside,
            CastlingSide::Queenside => self.queenside,
        }
    }

    /// The rights once the piece of `mv`, which belongs to the side that holds these rights, has
    /// moved: none after a king move, and none on a wing whose rook left its corner.
    pub open spec fn spec_after(&self, mv: Move) -> CastlingRights {
        let home = mv.from.y == mv.piece.colour.back_rank();
        match mv.piece.piece_type {
            PieceType::King => CastlingRights { kingside: false, queenside: false },
            PieceType::Rook => CastlingRights {
                kingside: self.kingside && !(home && mv.from.x == CastlingSide::Kingside.rook_file()),
                queenside: self.queenside && !(home && mv.from.x
                    == CastlingSide::Queenside.rook_file()),
            },
            _ => *self,
        }
    }

    /// The rights once the piece of `mv`, which belongs to the side that holds these rights, has
    /// moved: none after a king move, and none on a wing whose rook left its corner.
    #[verifier::when_used_as_spec(spec_after)]
    pub fn after(&self, mv: Move) -> (rights: CastlingRights)
        ensures
            rights == self.spec_after(mv),
    {
        let home = mv.from.y == mv.piece.colour.back_rank();
        match mv.piece.piece_type {
            PieceType::King => CastlingRights { kingside: false, queenside: false },
            PieceType::Rook => CastlingRights {
                kingside: self.kingside && !(home && mv.from.x == CastlingSide::Kingside.rook_file()),
                queenside: self.queenside && !(home && mv.from.x
                    == CastlingSide::Queenside.rook_file()),
            },
            _ => *self,
        }
    }
}

impl Default for CastlingRights {
    /// Both wings allowed.
    fn default() -> (rights: CastlingRights)
        ensures
            rights == (CastlingRights { kingside: true, queenside: true }),
    {
        CastlingRights { kingside: true, queenside: true }
    }
}

/// A move, complete in itself: applying it reads nothing else off the board.
#[derive(Clone, Copy, Debug, PartialEq, Eq, Structural)]
pub struct Move {
    /// The piece that moves.
    pub piece: Piece,
    /// Where it stands.
    pub from: Coordinate,
    /// Where it goes.
    pub to: Coordinate,
    /// The piece it captures, if any. For an en passant capture this piece does not stand on
    /// `to`.
    pub captured: Option<Piece>,
    /// The piece a pawn turns into on reaching the last rank.
    pub promotion: Option<Piece>,
    /// The king castles: its rook moves too.
    pub is_castling: bool,
    /// A pawn captures en passant.
    pub is_en_passant: bool,
}

impl Move {
    /// A move of `piece` from `from` to `to` that captures `captured`, neither castling nor en
    /// passant nor promoting.
    pub fn new(piece: Piece, from: Coordinate, to: Coordinate, captured: Option<Piece>) -> (mv:
        Move)
        ensures
            mv == (Move {
                piece,
                from,
                to,
                captured,
                promotion: None,
                is_castling: false,
                is_en_passant: false,
            }),
    {
        Move {
            piece,
            from,
            to,
            captured,
            promotion: None,
            is_castling: false,
            is_en_passant: false,
        }
    }

    /// The square from which this move takes the captured piece: the square beside the origin
    /// for an en passant capture, the destination otherwise.
    pub open spec fn spec_capture_square(&self) -> Coordinate {
        if self.is_en_passant {
            Coordinate { x: self.to.x, y: self.from.y }
        } else {
            self.to
        }
    }

    /// The square from which this move takes the captured piece: the square beside the origin
    /// for an en passant capture, the destination otherwise.
    #[verifier::when_used_as_spec(spec_capture_square)]
    pub fn capture_square(&self) -> (square: Coordinate)
        ensures
            square == self.spec_capture_square(),
    {
        if self.is_en_passant {
            Coordinate { x: self.to.x, y: self.from.y }
        } else {
            self.to
        }
    }

    /// The wing towards which the king of a castling move goes.
    pub open spec fn spec_castling_side(&self) -> CastlingSide {
        if self.to.x > self.from.x {
            CastlingSide::Kingside
        } else {
            CastlingSide::Queenside
        }
    }

    /// The wing towards which the king of a castling move goes.
    #[verifier::when_used_as_spec(spec_castling_side)]
    pub fn castling_side(&self) -> (side: CastlingSide)
        ensures
            side == self.spec_castling_side(),
    {
        if self.to.x > self.from.x {
            CastlingSide::Kingside
        } else {
            CastlingSide::Queenside
        }
    }

    /// The piece that stands on the destination once the move is made.
    pub open spec fn spec_arriving(&self) -> Piece {
        match self.promotion {
            Some(promoted) => promoted,
            None => self.piece,
        }
    }

    /// The piece that stands on the destination once the move is made.
    #[verifier::when_used_as_spec(spec_arriving)]
    pub fn arriving(&self) -> (piece: Piece)
        ensures
            piece == self.spec_arriving(),
    {
        match self.promotion {
            Some(promoted) => promoted,
            None => self.piece,
        }
    }

    /// A pawn advances two squares from its starting rank.
    pub open spec fn spec_is_double_step(&self) -> bool {
        &&& self.piece.piece_type == PieceType::Pawn
        &&& self.from.x == self.to.x
        &&& self.from.y == self.piece.colour.pawn_rank()
        &&& self.to.y == self.from.y + 2 * self.piece.colour.forward()
    }

    /// A pawn advances two squares from its starting rank.
    #[verifier::when_used_as_spec(spec_is_double_step)]
    pub fn is_double_step(&self) -> (double: bool)
        ensures
            double == self.spec_is_double_step(),
    {
        self.piece.piece_type == PieceType::Pawn && self.from.x == self.to.x && self.from.y
            == self.piece.colour.pawn_rank() && self.to.y == match self.piece.colour {
            Colour::White => 3,
            Colour::Black => 4,
        }
    }

    /// The move that takes the piece back to where it came from. For a move that neither
    /// captures, promotes nor castles, making both in turn leaves each square as it was.
    pub open spec fn spec_inverse(&self) -> Move {
        Move {
            piece: self.piece,
            from: self.to,
            to: self.from,
            captured: None,
            promotion: None,
            is_castling: false,
            is_en_passant: false,
        }
    }

    /// The move that takes the piece back to where it came from. For a move that neither
    /// captures, promotes nor castles, making both in turn leaves each square as it was.
    #[verifier::when_used_as_spec(spec_inverse)]
    pub fn inverse(&self) -> (back: Move)
        ensures
            back == self.spec_inverse(),
    {
        Move {
            piece: self.piece,
            from: self.to,
            to: self.from,
            captured: None,
            promotion: None,
            is_castling: false,
            is_en_passant: false,
        }
    }
}

} // verus!
