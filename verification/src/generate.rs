//! Where each kind of piece can go if it may leave its own king in check.

use crate::board::{Board, RayIterator};
use crate::coordinate::Coordinate;
use crate::error::{ChessError, PieceMismatch};
use crate::piece::{Colour, Piece, PieceType};
use crate::position::{
    pawn_capture_deltas, DIAGONAL_DIRS, KING_DIRS, KNIGHT_DELTAS, ORTHOGONAL_DIRS,
};
use vstd::prelude::*;

verus! {

impl Board {
    /// The piece on `position`, where it is of the kind `expected_piece_type` and of the side
    /// to move. Fails with `WrongPiece` where the square is empty, where its piece is of
    /// another kind, and where a piece of that kind belongs to the side not to move, in this
    /// order.
    pub fn validate_piece_type(&self, position: &Coordinate, expected_piece_type: PieceType) -> (found:
        Result<Piece, ChessError>)
        requires
            position.is_valid(),
        ensures
            found == self@.validate(*position, expected_piece_type),
    {
        match self.get_square(position) {
            Some(piece) => {
                if piece.piece_type != expected_piece_type {
                    Err(ChessError::WrongPiece(PieceMismatch::WrongKind(expected_piece_type)))
                } else if piece.colour != self.turn() {
                    Err(ChessError::WrongPiece(PieceMismatch::WrongSide))
                } else {
                    Ok(piece)
                }
            },
            None => Err(ChessError::WrongPiece(PieceMismatch::EmptySquare)),
        }
    }

    /// A piece of the given side may land on `coord`: the square is empty or holds an
    /// opposing piece.
    pub fn is_valid_destination(&self, coord: &Coordinate, moving_piece_colour: Colour) -> (valid:
        bool)
        requires
            coord.is_valid(),
        ensures
            valid == self@.is_valid_destination(*coord, moving_piece_colour),
    {
        match self.get_square(coord) {
            Some(piece) => piece.colour != moving_piece_colour,
            None => true,
        }
    }

    /// The squares among `candidates` that hold a piece of the given side.
    fn keep_held_by(&self, candidates: &Vec<Coordinate>, colour: Colour) -> (kept: Vec<Coordinate>)
        requires
            forall|i: int| 0 <= i < candidates@.len() ==> (#[trigger] candidates@[i]).is_valid(),
        ensures
            kept@ == candidates@.filter(self@.holds_side_fn(colour)),
            forall|i: int| 0 <= i < kept@.len() ==> (#[trigger] kept@[i]).is_valid(),
    {
        let mut kept: Vec<Coordinate> = Vec::new();
        let mut i: usize = 0;
        proof {
            reveal(Seq::filter);
        }
        while i < candidates.len()
            invariant
                i <= candidates.len(),
                forall|k: int| 0 <= k < candidates@.len() ==> (#[trigger] candidates@[k]).is_valid(),
                kept@ == candidates@.take(i as int).filter(self@.holds_side_fn(colour)),
                forall|k: int| 0 <= k < kept@.len() ==> (#[trigger] kept@[k]).is_valid(),
            decreases candidates.len() - i,
        {
            let c = candidates[i];
            let held = match self.get_square(&c) {
                Some(piece) => piece.colour == colour,
                None => false,
            };
            if held {
                kept.push(c);
            }
            proof {
                assert(candidates@.take(i + 1) == candidates@.take(i as int).push(c));
                candidates@.take(i as int).lemma_filter_push(c, self@.holds_side_fn(colour));
            }
            i += 1;
        }
        assert(candidates@.take(candidates@.len() as int) == candidates@);
        kept
    }

    /// Where a piece of the given side that moves by fixed jumps can go from `origin`: the
    /// squares that the deltas lead to, without those off the grid and those that hold a piece
    /// of its own side.
    pub fn step_destinations(&self, origin: &Coordinate, colour: Colour, deltas: &[(i8, i8)]) -> (reached:
        Vec<Coordinate>)
        ensures
            reached@ == self@.step_destinations(*origin, colour, deltas@),
            forall|i: int| 0 <= i < reached@.len() ==> (#[trigger] reached@[i]).is_valid(),
    {
        let candidates = origin.apply_deltas(deltas);
        let mut reached: Vec<Coordinate> = Vec::new();
        let mut i: usize = 0;
        proof {
            reveal(Seq::filter);
        }
        while i < candidates.len()
            invariant
                i <= candidates.len(),
                forall|k: int| 0 <= k < candidates@.len() ==> (#[trigger] candidates@[k]).is_valid(),
                reached@ == candidates@.take(i as int).filter(self@.valid_destination_fn(colour)),
                forall|k: int| 0 <= k < reached@.len() ==> (#[trigger] reached@[k]).is_valid(),
            decreases candidates.len() - i,
        {
            let c = candidates[i];
            if self.is_valid_destination(&c, colour) {
                reached.push(c);
            }
            proof {
                assert(candidates@.take(i + 1) == candidates@.take(i as int).push(c));
                candidates@.take(i as int).lemma_filter_push(c, self@.valid_destination_fn(colour));
            }
            i += 1;
        }
        assert(candidates@.take(candidates@.len() as int) == candidates@);
        reached
    }

    /// The squares that a sliding piece of the given side reaches by walking from `origin` in
    /// `direction`, nearest first.
    pub fn ray(&self, origin: &Coordinate, direction: (i8, i8), colour: Colour) -> (reached: Vec<
        Coordinate,
    >)
        ensures
            reached@ == self@.ray(*origin, direction, colour),
            forall|i: int| 0 <= i < reached@.len() ==> (#[trigger] reached@[i]).is_valid(),
    {
        let mut reached: Vec<Coordinate> = Vec::new();
        let mut walk = RayIterator::new(self, *origin, direction, colour);
        loop
            invariant
                walk.wf(),
                walk.position() == self@,
                reached@ + walk.remaining() == self@.ray(*origin, direction, colour),
                forall|k: int| 0 <= k < reached@.len() ==> (#[trigger] reached@[k]).is_valid(),
            ensures
                reached@ == self@.ray(*origin, direction, colour),
            decreases walk.remaining().len(),
        {
            let ghost before = walk.remaining();
            match walk.next() {
                Some(c) => {
                    assert(reached@.push(c) + walk.remaining() == reached@ + before);
                    reached.push(c);
                },
                None => {
                    assert(reached@ + before == reached@);
                    break ;
                },
            }
        }
        reached
    }

    /// Where a sliding piece of the given side can go from `origin`: its rays in the given
    /// directions, one after the other.
    pub fn slide_destinations(&self, origin: &Coordinate, colour: Colour, directions: &[(i8, i8)]) -> (reached:
        Vec<Coordinate>)
        ensures
            reached@ == self@.slide_destinations(*origin, colour, directions@),
            forall|i: int| 0 <= i < reached@.len() ==> (#[trigger] reached@[i]).is_valid(),
    {
        let mut reached: Vec<Coordinate> = Vec::new();
        let mut i: usize = 0;
        while i < directions.len()
            invariant
                i <= directions.len(),
                reached@ == self@.slide_destinations(*origin, colour, directions@.take(i as int)),
                forall|k: int| 0 <= k < reached@.len() ==> (#[trigger] reached@[k]).is_valid(),
            decreases directions.len() - i,
        {
            let mut ray = self.ray(origin, directions[i], colour);
            proof {
                assert(directions@.take(i + 1).drop_last() == directions@.take(i as int));
            }
            reached.append(&mut ray);
            i += 1;
        }
        assert(directions@.take(directions@.len() as int) == directions@);
        reached
    }

    /// The square on which a pawn of the given side on `origin` captures en passant, if it can.
    pub fn en_passant_target(&self, origin: &Coordinate, colour: Colour) -> (target: Option<
        Coordinate,
    >)
        ensures
            target == self@.en_passant_target(*origin, colour),
            target matches Some(c) ==> c.is_valid(),
    {
        let moves = self.move_list();
        if moves.len() == 0 {
            return None;
        }
        let last = moves[moves.len() - 1];
        if !(last.is_double_step() && last.piece.colour == colour.opposite() && last.to.x < 8
            && last.to.y < 8 && last.to.y == origin.y) {
            return None;
        }
        let beside = last.to.x as i16 == origin.x as i16 + 1 || last.to.x as i16 + 1
            == origin.x as i16;
        if !beside {
            return None;
        }
        let target = Coordinate { x: last.to.x, y: (origin.y as i8 + colour.forward()) as u8 };
        let pawn_there = match self.get_square(&last.to) {
            Some(piece) => piece == last.piece,
            None => false,
        };
        if pawn_there && self.get_square(&target).is_none() {
            Some(target)
        } else {
            None
        }
    }

    /// Where a pawn of the given side can go from `origin`: one square ahead if that square is
    /// empty; two squares ahead from its starting rank if both squares are empty; diagonally
    /// ahead onto an opposing piece; and diagonally ahead to capture en passant.
    pub fn pawn_destinations(&self, origin: &Coordinate, colour: Colour) -> (reached: Vec<
        Coordinate,
    >)
        ensures
            reached@ == self@.pawn_destinations(*origin, colour),
            forall|i: int| 0 <= i < reached@.len() ==> (#[trigger] reached@[i]).is_valid(),
    {
        let direction = colour.forward();
        let on_starting_rank = origin.y == colour.pawn_rank();
        let mut reached: Vec<Coordinate> = Vec::new();

        // One square ahead, and two from the starting rank.
        match origin.try_apply_delta((0, direction)) {
            Ok(one) => {
                if self.get_square(&one).is_none() {
                    reached.push(one);
                    if on_starting_rank {
                        match origin.try_apply_delta((0, 2 * direction)) {
                            Ok(two) => {
                                if self.get_square(&two).is_none() {
                                    reached.push(two);
                                }
                            },
                            Err(_) => {},
                        }
                    }
                }
            },
            Err(_) => {},
        }
        assert(reached@ == self@.pawn_pushes(*origin, colour));

        // Captures.
        let diagonals = [(1i8, direction), (-1i8, direction)];
        assert(diagonals@ == pawn_capture_deltas(colour));
        let candidates = origin.apply_deltas(&diagonals);
        let mut captures = self.keep_held_by(&candidates, colour.opposite());
        reached.append(&mut captures);

        // The en passant capture.
        match self.en_passant_target(origin, colour) {
            Some(target) => {
                reached.push(target);
                assert(reached@ == self@.pawn_pushes(*origin, colour) + self@.pawn_captures(
                    *origin,
                    colour,
                ) + seq![target]);
            },
            None => {
                assert(reached@ == self@.pawn_pushes(*origin, colour) + self@.pawn_captures(
                    *origin,
                    colour,
                ) + Seq::<Coordinate>::empty());
            },
        }
        reached
    }

    /// Where the piece of kind `piece_type` on `position` can go by the jumps `deltas`, or
    /// `WrongPiece` where no such piece of the side to move stands there.
    pub fn step_piece_moves(&self, position: &Coordinate, piece_type: PieceType, deltas: &[(i8, i8)]) -> (moves:
        Result<Vec<Coordinate>, ChessError>)
        requires
            position.is_valid(),
        ensures
            match moves {
                Ok(reached) => self@.validate(*position, piece_type) matches Ok(piece) && reached@
                    == self@.step_destinations(*position, piece.colour, deltas@),
                Err(e) => self@.validate(*position, piece_type) == Err::<Piece, ChessError>(e),
            },
            moves matches Ok(reached) ==> forall|i: int|
                0 <= i < reached@.len() ==> (#[trigger] reached@[i]).is_valid(),
    {
        match self.validate_piece_type(position, piece_type) {
            Ok(piece) => Ok(self.step_destinations(position, piece.colour, deltas)),
            Err(e) => Err(e),
        }
    }

    /// Where the piece of kind `piece_type` on `position` can go by sliding in `directions`, or
    /// `WrongPiece` where no such piece of the side to move stands there.
    pub fn sliding_piece_moves(&self, position: &Coordinate, piece_type: PieceType, directions: &[(
        i8,
        i8,
    )]) -> (moves: Result<Vec<Coordinate>, ChessError>)
        requires
            position.is_valid(),
        ensures
            match moves {
                Ok(reached) => self@.validate(*position, piece_type) matches Ok(piece) && reached@
                    == self@.slide_destinations(*position, piece.colour, directions@),
                Err(e) => self@.validate(*position, piece_type) == Err::<Piece, ChessError>(e),
            },
            moves matches Ok(reached) ==> forall|i: int|
                0 <= i < reached@.len() ==> (#[trigger] reached@[i]).is_valid(),
    {
        match self.validate_piece_type(position, piece_type) {
            Ok(piece) => Ok(self.slide_destinations(position, piece.colour, directions)),
            Err(e) => Err(e),
        }
    }

    /// Where the knight of the side to move on `position` can go.
    pub fn pseudo_knight_moves(&self, position: &Coordinate) -> (moves: Result<
        Vec<Coordinate>,
        ChessError,
    >)
        requires
            position.is_valid(),
        ensures
            self@.pseudo_moves(*position, PieceType::Knight, moves),
    {
        self.step_piece_moves(position, PieceType::Knight, &KNIGHT_DELTAS)
    }

    /// Where the rook of the side to move on `position` can go.
    pub fn pseudo_rook_moves(&self, position: &Coordinate) -> (moves: Result<
        Vec<Coordinate>,
        ChessError,
    >)
        requires
            position.is_valid(),
        ensures
            self@.pseudo_moves(*position, PieceType::Rook, moves),
    {
        self.sliding_piece_moves(position, PieceType::Rook, &ORTHOGONAL_DIRS)
    }

    /// Where the bishop of the side to move on `position` can go.
    pub fn pseudo_bishop_moves(&self, position: &Coordinate) -> (moves: Result<
        Vec<Coordinate>,
        ChessError,
    >)
        requires
            position.is_valid(),
        ensures
            self@.pseudo_moves(*position, PieceType::Bishop, moves),
    {
        self.sliding_piece_moves(position, PieceType::Bishop, &DIAGONAL_DIRS)
    }

    /// Where the queen of the side to move on `position` can go.
    pub fn pseudo_queen_moves(&self, position: &Coordinate) -> (moves: Result<
        Vec<Coordinate>,
        ChessError,
    >)
        requires
            position.is_valid(),
        ensures
            self@.pseudo_moves(*position, PieceType::Queen, moves),
    {
        self.sliding_piece_moves(position, PieceType::Queen, &KING_DIRS)
    }

    /// Where the king of the side to move on `position` can go, castling apart.
    pub fn pseudo_king_moves(&self, position: &Coordinate) -> (moves: Result<
        Vec<Coordinate>,
        ChessError,
    >)
        requires
            position.is_valid(),
        ensures
            self@.pseudo_moves(*position, PieceType::King, moves),
    {
        self.step_piece_moves(position, PieceType::King, &KING_DIRS)
    }

    /// Where the pawn of the side to move on `position` can go.
    pub fn pseudo_pawn_moves(&self, position: &Coordinate) -> (moves: Result<
        Vec<Coordinate>,
        ChessError,
    >)
        requires
            position.is_valid(),
        ensures
            self@.pseudo_moves(*position, PieceType::Pawn, moves),
    {
        match self.validate_piece_type(position, PieceType::Pawn) {
            Ok(piece) => Ok(self.pawn_destinations(position, piece.colour)),
            Err(e) => Err(e),
        }
    }

    /// Where the piece of kind `piece_type` of the side to move on `position` can go.
    pub fn pseudo_moves_by_type(&self, position: &Coordinate, piece_type: PieceType) -> (moves:
        Result<Vec<Coordinate>, ChessError>)
        requires
            position.is_valid(),
        ensures
            self@.pseudo_moves(*position, piece_type, moves),
    {
        match piece_type {
            PieceType::Pawn => self.pseudo_pawn_moves(position),
            PieceType::Knight => self.pseudo_knight_moves(position),
            PieceType::Bishop => self.pseudo_bishop_moves(position),
            PieceType::Rook => self.pseudo_rook_moves(position),
            PieceType::Queen => self.pseudo_queen_moves(position),
            PieceType::King => self.pseudo_king_moves(position),
        }
    }
}

} // verus!
