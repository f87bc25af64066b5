//! The mathematical model of a position, and the rules of movement stated over it.

use crate::coordinate::Coordinate;
use crate::error::{ChessError, PieceMismatch};
use crate::moves::{CastlingRights, CastlingSide, Move, KING_FILE};
use crate::piece::{Colour, Piece, PieceType};
use vstd::prelude::*;

verus! {

/// The four directions along files and ranks.
pub const ORTHOGONAL_DIRS: [(i8, i8); 4] = [(1, 0), (-1, 0), (0, 1), (0, -1)];

/// The four diagonal directions.
pub const DIAGONAL_DIRS: [(i8, i8); 4] = [(1, 1), (1, -1), (-1, 1), (-1, -1)];

/// The eight directions to a neighbouring square: the orthogonal ones, then the diagonal ones.
pub const KING_DIRS: [(i8, i8); 8] = [
    (1, 0),
    (-1, 0),
    (0, 1),
    (0, -1),
    (1, 1),
    (1, -1),
    (-1, 1),
    (-1, -1),
];

/// The eight jumps of a knight.
pub const KNIGHT_DELTAS: [(i8, i8); 8] = [
    (1, 2),
    (1, -2),
    (-1, 2),
    (-1, -2),
    (2, 1),
    (2, -1),
    (-2, 1),
    (-2, -1),
];

/// The two squares on which a pawn of the given side captures, as deltas from the pawn.
pub open spec fn pawn_capture_deltas(colour: Colour) -> Seq<(i8, i8)> {
    seq![(1i8, colour.forward()), (-1i8, colour.forward())]
}

/// How far a walk from `from` in direction `dir` is from leaving the grid, counted so that
/// every step on the grid in a direction other than `(0, 0)` lowers it.
pub open spec fn ray_span(from: Coordinate, dir: (i8, i8)) -> int {
    (if dir.0 > 0 {
        7 - from.x
    } else if dir.0 < 0 {
        from.x as int
    } else {
        0
    }) + (if dir.1 > 0 {
        7 - from.y
    } else if dir.1 < 0 {
        from.y as int
    } else {
        0
    })
}

/// The place of a square in the order in which a board is scanned: rank by rank from rank 0,
/// and within a rank file by file from file 0.
pub open spec fn scan_index(c: Coordinate) -> int {
    c.y * 8 + c.x
}

/// The square at a place in the scanning order.
pub open spec fn scan_square(index: int) -> Coordinate {
    Coordinate { x: (index % 8) as u8, y: (index / 8) as u8 }
}

/// Each of the 64 places of the scanning order has its square on the grid, and the place of that
/// square is the place again.
pub proof fn lemma_scan_square(index: int)
    requires
        0 <= index < 64,
    ensures
        scan_square(index).is_valid(),
        scan_index(scan_square(index)) == index,
{
}

/// Each square of the grid has its place among the 64 of the scanning order, and the square at
/// that place is the square again.
pub proof fn lemma_scan_index(c: Coordinate)
    requires
        c.is_valid(),
    ensures
        0 <= scan_index(c) < 64,
        scan_square(scan_index(c)) == c,
{
}

/// A position: what stands on each square, whose turn it is, what castling is still allowed,
/// and the moves made so far.
#[verifier::ext_equal]
pub struct Position {
    /// The occupant of each square of the grid.
    pub squares: Map<Coordinate, Option<Piece>>,
    /// The side to move.
    pub turn: Colour,
    /// What castling White may still do.
    pub white_castling: CastlingRights,
    /// What castling Black may still do.
    pub black_castling: CastlingRights,
    /// The moves made so far, oldest first.
    pub history: Seq<Move>,
}

impl Position {
    /// The position has one entry for each square of the grid and no other.
    pub open spec fn wf(self) -> bool {
        forall|c: Coordinate| self.squares.dom().contains(c) <==> c.is_valid()
    }

    /// The occupant of a square.
    pub open spec fn at(self, c: Coordinate) -> Option<Piece> {
        self.squares[c]
    }

    /// The occupied square together with its occupant, as a scan of the board yields it.
    pub open spec fn entry(self, c: Coordinate) -> Option<(Coordinate, Piece)> {
        match self.at(c) {
            Some(piece) => Some((c, piece)),
            None => None,
        }
    }

    /// This position with another occupant on one square.
    pub open spec fn put(self, c: Coordinate, occupant: Option<Piece>) -> Position {
        Position { squares: self.squares.insert(c, occupant), ..self }
    }

    /// The castling rights of one side.
    pub open spec fn castling(self, colour: Colour) -> CastlingRights {
        match colour {
            Colour::White => self.white_castling,
            Colour::Black => self.black_castling,
        }
    }

    /// The square holds a piece of the given side.
    pub open spec fn holds_side(self, c: Coordinate, colour: Colour) -> bool {
        match self.at(c) {
            Some(piece) => piece.colour == colour,
            None => false,
        }
    }

    /// `holds_side` as a function of the square alone.
    pub open spec fn holds_side_fn(self, colour: Colour) -> spec_fn(Coordinate) -> bool {
        |c: Coordinate| self.holds_side(c, colour)
    }

    /// A piece of the given side may land on the square: it is empty or holds an opposing
    /// piece.
    pub open spec fn is_valid_destination(self, c: Coordinate, colour: Colour) -> bool {
        !self.holds_side(c, colour)
    }

    /// `is_valid_destination` as a function of the square alone.
    pub open spec fn valid_destination_fn(self, colour: Colour) -> spec_fn(Coordinate) -> bool {
        |c: Coordinate| self.is_valid_destination(c, colour)
    }

    /// What a request for the moves of a piece of kind `expected` on `origin` finds there: the
    /// piece, where it is of that kind and of the side to move.
    pub open spec fn validate(self, origin: Coordinate, expected: PieceType) -> Result<
        Piece,
        ChessError,
    > {
        match self.at(origin) {
            None => Err(ChessError::WrongPiece(PieceMismatch::EmptySquare)),
            Some(piece) => if piece.piece_type != expected {
                Err(ChessError::WrongPiece(PieceMismatch::WrongKind(expected)))
            } else if piece.colour != self.turn {
                Err(ChessError::WrongPiece(PieceMismatch::WrongSide))
            } else {
                Ok(piece)
            },
        }
    }

    /// `moves` is what a request for the moves of the piece of kind `kind` on `origin` owes:
    /// the squares that this piece can go to, in their order, where such a piece of the side to
    /// move stands there, and else the error that `validate` gives.
    pub open spec fn pseudo_moves(
        self,
        origin: Coordinate,
        kind: PieceType,
        moves: Result<Vec<Coordinate>, ChessError>,
    ) -> bool {
        match moves {
            Ok(reached) => self.validate(origin, kind) matches Ok(piece) && reached@
                == self.destinations(origin, kind, piece.colour),
            Err(e) => self.validate(origin, kind) == Err::<Piece, ChessError>(e),
        }
    }

    /// Where a piece of the given side that moves by fixed jumps can go from `origin`: the
    /// squares that the deltas lead to, in the order of the deltas, without those off the grid
    /// and those that hold a piece of its own side.
    pub open spec fn step_destinations(
        self,
        origin: Coordinate,
        colour: Colour,
        deltas: Seq<(i8, i8)>,
    ) -> Seq<Coordinate> {
        origin.offsets(deltas).filter(self.valid_destination_fn(colour))
    }

    /// The squares that a sliding piece of the given side reaches by walking from `from` in
    /// direction `dir`, nearest first. The walk passes over empty squares; it ends before a
    /// piece of its own side and before the edge of the grid, and on an opposing piece, which it
    /// captures. In direction `(0, 0)` there is no walk.
    pub open spec fn ray(self, from: Coordinate, dir: (i8, i8), colour: Colour) -> Seq<Coordinate>
        decreases ray_span(from, dir),
    {
        if dir.0 == 0 && dir.1 == 0 {
            Seq::empty()
        } else {
            match from.offset(dir) {
                None => Seq::empty(),
                Some(next) => match self.at(next) {
                    None => seq![next] + self.ray(next, dir, colour),
                    Some(piece) => if piece.colour == colour {
                        Seq::empty()
                    } else {
                        seq![next]
                    },
                },
            }
        }
    }

    /// Where a sliding piece of the given side can go from `origin`: its rays in the given
    /// directions, one after the other.
    pub open spec fn slide_destinations(
        self,
        origin: Coordinate,
        colour: Colour,
        dirs: Seq<(i8, i8)>,
    ) -> Seq<Coordinate>
        decreases dirs.len(),
    {
        if dirs.len() == 0 {
            Seq::empty()
        } else {
            self.slide_destinations(origin, colour, dirs.drop_last()) + self.ray(
                origin,
                dirs.last(),
                colour,
            )
        }
    }

    /// Where a pawn of the given side can advance to from `origin`: the square ahead if it is
    /// empty, and from the starting rank the square behind that one too, if it is empty as
    /// well.
    pub open spec fn pawn_pushes(self, origin: Coordinate, colour: Colour) -> Seq<Coordinate> {
        match origin.offset((0i8, colour.forward())) {
            None => Seq::empty(),
            Some(one) => if self.at(one) is Some {
                Seq::empty()
            } else {
                match origin.offset((0i8, (2 * colour.forward()) as i8)) {
                    None => seq![one],
                    Some(two) => if origin.y == colour.pawn_rank() && self.at(two) is None {
                        seq![one, two]
                    } else {
                        seq![one]
                    },
                }
            },
        }
    }

    /// Where a pawn of the given side can capture from `origin`: the squares diagonally ahead
    /// that hold an opposing piece.
    pub open spec fn pawn_captures(self, origin: Coordinate, colour: Colour) -> Seq<Coordinate> {
        origin.offsets(pawn_capture_deltas(colour)).filter(self.holds_side_fn(colour.opposite()))
    }

    /// The square on which a pawn of the given side on `origin` captures en passant, if it can.
    /// It can when the last move made was a two-square advance of an opposing pawn that came
    /// to stand beside it, that pawn still stands there, and the square behind that pawn is
    /// empty.
    pub open spec fn en_passant_target(self, origin: Coordinate, colour: Colour) -> Option<
        Coordinate,
    > {
        if self.history.len() == 0 {
            None
        } else {
            let last = self.history.last();
            let target = Coordinate { x: last.to.x, y: (origin.y + colour.forward()) as u8 };
            if last.is_double_step() && last.piece.colour == colour.opposite() && last.to.is_valid()
                && last.to.y == origin.y && (last.to.x == origin.x + 1 || last.to.x + 1 == origin.x)
                && self.at(last.to) == Some(last.piece) && self.at(target) is None {
                Some(target)
            } else {
                None
            }
        }
    }

    /// Where a pawn of the given side can go from `origin`: its advances, then its captures,
    /// then its en passant capture.
    pub open spec fn pawn_destinations(self, origin: Coordinate, colour: Colour) -> Seq<
        Coordinate,
    > {
        self.pawn_pushes(origin, colour) + self.pawn_captures(origin, colour) + (
        match self.en_passant_target(origin, colour) {
            Some(target) => seq![target],
            None => Seq::empty(),
        })
    }

    /// Where a piece of the given kind and side can go from `origin` if it may leave its own
    /// king in check. Castling is not among these moves.
    pub open spec fn destinations(self, origin: Coordinate, kind: PieceType, colour: Colour) -> Seq<
        Coordinate,
    > {
        match kind {
            PieceType::Pawn => self.pawn_destinations(origin, colour),
            PieceType::Knight => self.step_destinations(origin, colour, KNIGHT_DELTAS@),
            PieceType::Bishop => self.slide_destinations(origin, colour, DIAGONAL_DIRS@),
            PieceType::Rook => self.slide_destinations(origin, colour, ORTHOGONAL_DIRS@),
            PieceType::Queen => self.slide_destinations(origin, colour, KING_DIRS@),
            PieceType::King => self.step_destinations(origin, colour, KING_DIRS@),
        }
    }

    /// The piece on `from` attacks `target`: it could capture there. A pawn attacks the two
    /// squares diagonally ahead of it, whatever stands on them, and not the squares it can
    /// advance to; any other piece attacks the squares it can go to.
    pub open spec fn attacks(self, from: Coordinate, target: Coordinate) -> bool {
        match self.at(from) {
            None => false,
            Some(piece) => match piece.piece_type {
                PieceType::Pawn => from.offsets(pawn_capture_deltas(piece.colour)).contains(target),
                kind => self.destinations(from, kind, piece.colour).contains(target),
            },
        }
    }

    /// Some piece of the given side attacks `target`.
    pub open spec fn attacked_by(self, target: Coordinate, colour: Colour) -> bool {
        exists|from: Coordinate|
            from.is_valid() && self.holds_side(from, colour) && #[trigger] self.attacks(
                from,
                target,
            )
    }

    /// A king of the given side stands on `c`.
    pub open spec fn is_king_at(self, colour: Colour, c: Coordinate) -> bool {
        c.is_valid() && self.at(c) == Some(Piece { piece_type: PieceType::King, colour })
    }

    /// The board holds a king of the given side.
    pub open spec fn has_king(self, colour: Colour) -> bool {
        exists|c: Coordinate| self.is_king_at(colour, c)
    }

    /// The board holds exactly one king of the given side.
    pub open spec fn has_one_king(self, colour: Colour) -> bool {
        exists|c: Coordinate|
            #[trigger] self.is_king_at(colour, c) && forall|d: Coordinate|
                self.is_king_at(colour, d) ==> d == c
    }

    /// `c` holds the king of the given side that a scan of the board finds last. On a board
    /// with one king of that side, this is its square.
    pub open spec fn is_king_square(self, colour: Colour, c: Coordinate) -> bool {
        self.is_king_at(colour, c) && forall|d: Coordinate|
            self.is_king_at(colour, d) ==> scan_index(d) <= scan_index(c)
    }

    /// The square of the king of the given side, where there is one.
    pub open spec fn king_square(self, colour: Colour) -> Coordinate {
        choose|c: Coordinate| self.is_king_square(colour, c)
    }

    /// The king of the given side is attacked.
    pub open spec fn in_check(self, colour: Colour) -> bool {
        self.has_king(colour) && self.attacked_by(self.king_square(colour), colour.opposite())
    }

    /// The position once `mv` is made: the piece leaves its origin; the piece captured en
    /// passant leaves its square; the piece, or what it is promoted to, stands on the
    /// destination; in castling the rook leaves its corner for the square the king passed over;
    /// the side of the moving piece loses the castling rights that a king or rook move costs;
    /// the turn passes; and the move is added to the history.
    pub open spec fn after_move(self, mv: Move) -> Position {
        let lifted = self.put(mv.from, None);
        let taken = if mv.is_en_passant {
            lifted.put(mv.capture_square(), None)
        } else {
            lifted
        };
        let placed = taken.put(mv.to, Some(mv.arriving()));
        let side = mv.castling_side();
        let castled = if mv.is_castling {
            placed.put(Coordinate { x: side.rook_file(), y: mv.from.y }, None).put(
                Coordinate { x: side.rook_target_file(), y: mv.from.y },
                Some(Piece { piece_type: PieceType::Rook, colour: mv.piece.colour }),
            )
        } else {
            placed
        };
        Position {
            squares: castled.squares,
            turn: self.turn.opposite(),
            white_castling: if mv.piece.colour == Colour::White {
                self.white_castling.after(mv)
            } else {
                self.white_castling
            },
            black_castling: if mv.piece.colour == Colour::Black {
                self.black_castling.after(mv)
            } else {
                self.black_castling
            },
            history: self.history.push(mv),
        }
    }

    /// The given side may castle on the given wing: it still has the right, its king and that
    /// rook stand on their starting squares with nothing between them, and the opponent
    /// attacks neither the king's square nor the one it passes over nor the one it lands on.
    pub open spec fn can_castle(self, colour: Colour, side: CastlingSide) -> bool {
        let rank = colour.back_rank();
        let enemy = colour.opposite();
        &&& self.castling(colour).allows(side)
        &&& self.at(Coordinate { x: KING_FILE, y: rank }) == Some(
            Piece { piece_type: PieceType::King, colour },
        )
        &&& self.at(Coordinate { x: side.rook_file(), y: rank }) == Some(
            Piece { piece_type: PieceType::Rook, colour },
        )
        &&& self.at(Coordinate { x: side.rook_target_file(), y: rank }) is None
        &&& self.at(Coordinate { x: side.king_target_file(), y: rank }) is None
        &&& side == CastlingSide::Queenside ==> self.at(Coordinate { x: 1, y: rank }) is None
        &&& !self.attacked_by(Coordinate { x: KING_FILE, y: rank }, enemy)
        &&& !self.attacked_by(Coordinate { x: side.rook_target_file(), y: rank }, enemy)
        &&& !self.attacked_by(Coordinate { x: side.king_target_file(), y: rank }, enemy)
    }

    /// The castling move of the given side on the given wing.
    pub open spec fn castling_move(colour: Colour, side: CastlingSide) -> Move {
        Move {
            piece: Piece { piece_type: PieceType::King, colour },
            from: Coordinate { x: KING_FILE, y: colour.back_rank() },
            to: Coordinate { x: side.king_target_file(), y: colour.back_rank() },
            captured: None,
            promotion: None,
            is_castling: true,
            is_en_passant: false,
        }
    }

    /// A pawn that arrives on `to` has crossed the board and is promoted.
    pub open spec fn promotes(piece: Piece, to: Coordinate) -> bool {
        piece.piece_type == PieceType::Pawn && to.y == piece.colour.opposite().back_rank()
    }

    /// A pawn of the given side may be promoted to `promoted`.
    pub open spec fn is_promotion_choice(promoted: Piece, colour: Colour) -> bool {
        promoted.colour == colour && (promoted.piece_type == PieceType::Queen
            || promoted.piece_type == PieceType::Rook || promoted.piece_type == PieceType::Bishop
            || promoted.piece_type == PieceType::Knight)
    }

    /// `promotion` is what the record of a move of `piece` to `to` must hold: one of the four
    /// pieces that a pawn may turn into, of the pawn's side, where a pawn crosses the board,
    /// and nothing for any other move.
    pub open spec fn promotion_fits(piece: Piece, to: Coordinate, promotion: Option<Piece>) -> bool {
        match promotion {
            Some(promoted) => Self::promotes(piece, to) && Self::is_promotion_choice(
                promoted,
                piece.colour,
            ),
            None => !Self::promotes(piece, to),
        }
    }

    /// The record of the move of `piece` from `from` to `to`, castling apart. A pawn that goes
    /// diagonally to an empty square captures en passant, and takes the piece beside it;
    /// any other move takes what stands on `to`.
    pub open spec fn record(
        self,
        piece: Piece,
        from: Coordinate,
        to: Coordinate,
        promotion: Option<Piece>,
    ) -> Move {
        let is_en_passant = piece.piece_type == PieceType::Pawn && to.x != from.x && self.at(to)
            is None;
        Move {
            piece,
            from,
            to,
            captured: if is_en_passant {
                self.at(Coordinate { x: to.x, y: from.y })
            } else {
                self.at(to)
            },
            promotion,
            is_castling: false,
            is_en_passant,
        }
    }

    /// `mv` is the record of a move of its piece to one of the squares it can go to, with a
    /// promotion where a pawn crosses the board.
    pub open spec fn is_ordinary_move(self, mv: Move) -> bool {
        &&& self.destinations(mv.from, mv.piece.piece_type, mv.piece.colour).contains(mv.to)
        &&& Self::promotion_fits(mv.piece, mv.to, mv.promotion)
        &&& mv == self.record(mv.piece, mv.from, mv.to, mv.promotion)
    }

    /// `mv` is a move that the side to move may make if it may leave its own king in check:
    /// a move of one of its pieces to a square that piece can go to, or castling.
    pub open spec fn is_pseudo_legal(self, mv: Move) -> bool {
        &&& mv.from.is_valid()
        &&& self.at(mv.from) == Some(mv.piece)
        &&& mv.piece.colour == self.turn
        &&& self.is_ordinary_move(mv) || exists|side: CastlingSide|
            self.can_castle(self.turn, side) && mv == #[trigger] Self::castling_move(
                self.turn,
                side,
            )
    }

    /// Once `mv` is made, the king of the side that made it is not attacked.
    pub open spec fn is_safe(self, mv: Move) -> bool {
        !self.after_move(mv).in_check(self.turn)
    }

    /// `mv` is a move that the side to move may make: one that does not leave its own king in
    /// check.
    pub open spec fn is_legal(self, mv: Move) -> bool {
        self.is_pseudo_legal(mv) && self.is_safe(mv)
    }

    /// `is_safe` as a function of the move alone.
    pub open spec fn is_safe_fn(self) -> spec_fn(Move) -> bool {
        |mv: Move| self.is_safe(mv)
    }

    /// The side to move has no move and its king is attacked.
    pub open spec fn is_checkmate(self) -> bool {
        self.in_check(self.turn) && forall|mv: Move| !self.is_legal(mv)
    }

    /// The side to move has no move and its king is not attacked.
    pub open spec fn is_stalemate(self) -> bool {
        !self.in_check(self.turn) && forall|mv: Move| !self.is_legal(mv)
    }

    /// The position may have arisen in play: each side has exactly one king, and the side that
    /// has just moved did not leave its king in check.
    pub open spec fn is_legal_position(self) -> bool {
        self.has_one_king(Colour::White) && self.has_one_king(Colour::Black) && !self.in_check(
            self.turn.opposite(),
        )
    }

    /// The starting position.
    pub open spec fn initial() -> Position {
        Position {
            squares: Map::new(
                |c: Coordinate| c.is_valid(),
                |c: Coordinate| Self::initial_occupant(c),
            ),
            turn: Colour::White,
            white_castling: CastlingRights { kingside: true, queenside: true },
            black_castling: CastlingRights { kingside: true, queenside: true },
            history: Seq::empty(),
        }
    }

    /// The kind of piece that starts on the given file of a back rank.
    pub open spec fn back_rank_kind(file: u8) -> PieceType {
        if file == 0 || file == 7 {
            PieceType::Rook
        } else if file == 1 || file == 6 {
            PieceType::Knight
        } else if file == 2 || file == 5 {
            PieceType::Bishop
        } else if file == 3 {
            PieceType::Queen
        } else {
            PieceType::King
        }
    }

    /// What stands on a square in the starting position.
    pub open spec fn initial_occupant(c: Coordinate) -> Option<Piece> {
        if c.y == 0 {
            Some(Piece { piece_type: Self::back_rank_kind(c.x), colour: Colour::White })
        } else if c.y == 1 {
            Some(Piece { piece_type: PieceType::Pawn, colour: Colour::White })
        } else if c.y == 6 {
            Some(Piece { piece_type: PieceType::Pawn, colour: Colour::Black })
        } else if c.y == 7 {
            Some(Piece { piece_type: Self::back_rank_kind(c.x), colour: Colour::Black })
        } else {
            None
        }
    }

    /// The position with no piece on any square, White to move, and no castling allowed.
    pub open spec fn empty() -> Position {
        Position {
            squares: Map::new(|c: Coordinate| c.is_valid(), |c: Coordinate| None),
            turn: Colour::White,
            white_castling: CastlingRights { kingside: false, queenside: false },
            black_castling: CastlingRights { kingside: false, queenside: false },
            history: Seq::empty(),
        }
    }
}

} // verus!
