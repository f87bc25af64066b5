//! The board: the position as the program holds it, and the operations that read and change it.

use crate::coordinate::Coordinate;
use crate::error::ChessError;
use crate::moves::{CastlingRights, Move};
use crate::piece::{Colour, Piece, PieceType};
use crate::position::{scan_square, Position};
use vstd::prelude::*;

verus! {

/// A chess board with everything that the rules need to know of a game in progress.
#[derive(Debug, PartialEq, Eq)]
pub struct Board {
    squares: [[Option<Piece>; 8]; 8],
    turn: Colour,
    white_castling: CastlingRights,
    black_castling: CastlingRights,
    move_list: Vec<Move>,
}

impl View for Board {
    type V = Position;

    /// The position that the board holds.
    closed spec fn view(&self) -> Position {
        Position {
            squares: Map::new(
                |c: Coordinate| c.is_valid(),
                |c: Coordinate| self.squares[c.y as int][c.x as int],
            ),
            turn: self.turn,
            white_castling: self.white_castling,
            black_castling: self.black_castling,
            history: self.move_list@,
        }
    }
}

impl Default for Board {
    /// The starting position.
    fn default() -> (board: Board)
        ensures
            board@ == Position::initial(),
    {
        Board::new()
    }
}

impl Clone for Board {
    /// A copy of the board, to try a move on.
    fn clone(&self) -> (copy: Board)
        ensures
            copy@ == self@,
    {
        let mut move_list: Vec<Move> = Vec::new();
        let mut i: usize = 0;
        while i < self.move_list.len()
            invariant
                i <= self.move_list.len(),
                move_list@ == self.move_list@.take(i as int),
            decreases self.move_list.len() - i,
        {
            move_list.push(self.move_list[i]);
            assert(self.move_list@.take(i + 1) == self.move_list@.take(i as int).push(
                self.move_list@[i as int],
            ));
            i += 1;
        }
        assert(self.move_list@.take(self.move_list@.len() as int) == self.move_list@);
        Board {
            squares: self.squares,
            turn: self.turn,
            white_castling: self.white_castling,
            black_castling: self.black_castling,
            move_list,
        }
    }
}

/// A rank with no piece on it.
fn empty_rank() -> (rank: [Option<Piece>; 8])
    ensures
        forall|file: int| 0 <= file < 8 ==> rank@[file] is None,
{
    [None, None, None, None, None, None, None, None]
}

/// The rank of pawns with which a side starts.
fn pawn_rank(colour: Colour) -> (rank: [Option<Piece>; 8])
    ensures
        forall|file: int|
            0 <= file < 8 ==> rank@[file] == Some(Piece { piece_type: PieceType::Pawn, colour }),
{
    let pawn = Some(Piece::pawn(colour));
    [pawn, pawn, pawn, pawn, pawn, pawn, pawn, pawn]
}

/// The rank of pieces with which a side starts.
fn back_rank(colour: Colour) -> (rank: [Option<Piece>; 8])
    ensures
        forall|file: int|
            0 <= file < 8 ==> rank@[file] == Some(
                Piece { piece_type: Position::back_rank_kind(file as u8), colour },
            ),
{
    [
        Some(Piece::rook(colour)),
        Some(Piece::knight(colour)),
        Some(Piece::bishop(colour)),
        Some(Piece::queen(colour)),
        Some(Piece::king(colour)),
        Some(Piece::bishop(colour)),
        Some(Piece::knight(colour)),
        Some(Piece::rook(colour)),
    ]
}

impl Board {
    /// Every board holds a well-formed position: one entry for each square of the grid.
    pub proof fn lemma_view_wf(&self)
        ensures
            self@.wf(),
    {
    }

    /// The starting position: White to move, all castling allowed, no move made.
    pub fn new() -> (board: Board)
        ensures
            board@ == Position::initial(),
    {
        let board = Board {
            squares: [
                back_rank(Colour::White),
                pawn_rank(Colour::White),
                empty_rank(),
                empty_rank(),
                empty_rank(),
                empty_rank(),
                pawn_rank(Colour::Black),
                back_rank(Colour::Black),
            ],
            turn: Colour::White,
            white_castling: CastlingRights { kingside: true, queenside: true },
            black_castling: CastlingRights { kingside: true, queenside: true },
            move_list: Vec::new(),
        };
        assert(board@.squares =~= Position::initial().squares);
        board
    }

    /// A board with no piece on it: White to move, no castling allowed, no move made.
    pub fn empty() -> (board: Board)
        ensures
            board@ == Position::empty(),
    {
        let board = Board {
            squares: [
                empty_rank(),
                empty_rank(),
                empty_rank(),
                empty_rank(),
                empty_rank(),
                empty_rank(),
                empty_rank(),
                empty_rank(),
            ],
            turn: Colour::White,
            white_castling: CastlingRights { kingside: false, queenside: false },
            black_castling: CastlingRights { kingside: false, queenside: false },
            move_list: Vec::new(),
        };
        assert(board@.squares =~= Position::empty().squares);
        board
    }

    /// The occupant of a square.
    pub fn get_square(&self, coord: &Coordinate) -> (occupant: Option<Piece>)
        requires
            coord.is_valid(),
        ensures
            occupant == self@.at(*coord),
    {
        self.squares[coord.y as usize][coord.x as usize]
    }

    /// Puts `piece` on a square, or clears the square. This is for setting a position up; in
    /// play the board changes through `make_move`.
    pub fn set_square(&mut self, coord: Coordinate, piece: Option<Piece>)
        requires
            coord.is_valid(),
        ensures
            final(self)@ == old(self)@.put(coord, piece),
    {
        self.squares[coord.y as usize][coord.x as usize] = piece;
        assert(self@.squares =~= old(self)@.put(coord, piece).squares);
    }

    /// The side to move.
    pub fn turn(&self) -> (colour: Colour)
        ensures
            colour == self@.turn,
    {
        self.turn
    }

    /// Gives the move to `colour`. This is for setting a position up.
    pub fn set_turn(&mut self, colour: Colour)
        ensures
            final(self)@ == (Position { turn: colour, ..old(self)@ }),
    {
        self.turn = colour;
    }

    /// What castling the given side may still do.
    pub fn castling_rights(&self, colour: Colour) -> (rights: CastlingRights)
        ensures
            rights == self@.castling(colour),
    {
        match colour {
            Colour::White => self.white_castling,
            Colour::Black => self.black_castling,
        }
    }

    /// Sets what castling the given side may still do. This is for setting a position up.
    pub fn set_castling_rights(&mut self, colour: Colour, rights: CastlingRights)
        ensures
            final(self)@ == match colour {
                Colour::White => Position { white_castling: rights, ..old(self)@ },
                Colour::Black => Position { black_castling: rights, ..old(self)@ },
            },
    {
        match colour {
            Colour::White => {
                self.white_castling = rights;
            },
            Colour::Black => {
                self.black_castling = rights;
            },
        }
    }

    /// The moves made so far, oldest first.
    pub fn move_list(&self) -> (moves: &Vec<Move>)
        ensures
            moves@ == self@.history,
    {
        &self.move_list
    }

    /// Makes a move: the piece leaves its origin; the piece captured en passant leaves its
    /// square; the piece, or what it is promoted to, stands on the destination; in castling the
    /// rook leaves its corner for the square the king passed over; the side of the moving piece
    /// loses the castling rights that a king or rook move costs; the turn passes; and the move
    /// is added to the history.
    ///
    /// The move is meant to be one of `get_legal_moves` on this board, and then it is made.
    /// Whether the move is legal is not looked into. It fails, and the board stays as it is,
    /// with `OutOfBounds` where the origin or the destination is off the grid, and with
    /// `InvalidMove` where the moving piece does not stand on the origin.
    pub fn make_move(&mut self, mv: Move) -> (made: Result<(), ChessError>)
        ensures
            match made {
                Ok(_) => mv.from.is_valid() && mv.to.is_valid() && old(self)@.at(mv.from) == Some(
                    mv.piece,
                ) && final(self)@ == old(self)@.after_move(mv),
                Err(ChessError::OutOfBounds) => !(mv.from.is_valid() && mv.to.is_valid())
                    && final(self)@ == old(self)@,
                Err(ChessError::InvalidMove) => mv.from.is_valid() && mv.to.is_valid() && old(self)@.at(mv.from) != Some(mv.piece) && final(self)@ == old(self)@,
                Err(_) => false,
            },
    {
        if !(mv.from.x < 8 && mv.from.y < 8 && mv.to.x < 8 && mv.to.y < 8) {
            return Err(ChessError::OutOfBounds);
        }
        let stands = match self.get_square(&mv.from) {
            Some(piece) => piece == mv.piece,
            None => false,
        };
        if !stands {
            return Err(ChessError::InvalidMove);
        }
        self.set_square(mv.from, None);
        if mv.is_en_passant {
            self.set_square(mv.capture_square(), None);
        }
        self.set_square(mv.to, Some(mv.arriving()));
        if mv.is_castling {
            let side = mv.castling_side();
            self.set_square(Coordinate { x: side.rook_file(), y: mv.from.y }, None);
            self.set_square(
                Coordinate { x: side.rook_target_file(), y: mv.from.y },
                Some(Piece::rook(mv.piece.colour)),
            );
        }
        match mv.piece.colour {
            Colour::White => {
                self.white_castling = self.white_castling.after(mv);
            },
            Colour::Black => {
                self.black_castling = self.black_castling.after(mv);
            },
        }
        self.turn = self.turn.opposite();
        self.move_list.push(mv);
        assert(self@ == old(self)@.after_move(mv));
        Ok(())
    }

    /// A scan of the board, square by square: rank by rank from rank 0, and within a rank file
    /// by file from file 0.
    pub fn into_iter(&self) -> (scan: BoardIterator<'_>)
        ensures
            scan.wf(),
            scan.position() == self@,
            scan.scanned() == 0,
    {
        BoardIterator { board: self, row: 0, col: 0 }
    }
}

/// A scan of a board in progress.
pub struct BoardIterator<'a> {
    board: &'a Board,
    row: usize,
    col: usize,
}

impl<'a> BoardIterator<'a> {
    /// The position that is scanned.
    pub closed spec fn position(&self) -> Position {
        self.board@
    }

    /// How many squares the scan has yielded.
    pub closed spec fn scanned(&self) -> int {
        self.row * 8 + self.col
    }

    /// The scan stands on a square of the board, or at its end.
    pub closed spec fn wf(&self) -> bool {
        self.col < 8 && self.row <= 8 && (self.row == 8 ==> self.col == 0)
    }

    /// A scan has yielded at most the 64 squares of the board.
    pub proof fn lemma_scanned_bounds(&self)
        requires
            self.wf(),
        ensures
            0 <= self.scanned() <= 64,
    {
    }

    /// The next square of the scan: `None` once all 64 squares were yielded, else what stands
    /// on the square, which is `None` for an empty square and the square with its piece for an
    /// occupied one.
    pub fn next(&mut self) -> (item: Option<Option<(Coordinate, Piece)>>)
        requires
            old(self).wf(),
        ensures
            final(self).wf(),
            final(self).position() == old(self).position(),
            old(self).scanned() >= 64 ==> item is None && final(self).scanned() == old(self).scanned(),
            old(self).scanned() < 64 ==> item == Some(
                old(self).position().entry(scan_square(old(self).scanned())),
            ) && final(self).scanned() == old(self).scanned() + 1,
    {
        if self.row >= 8 {
            return None;
        }
        let current_col = self.col;
        let current_row = self.row;
        let coord = Coordinate::new_unchecked(current_col as u8, current_row as u8);
        let maybe_piece = self.board.get_square(&coord);

        self.col += 1;
        if self.col >= 8 {
            self.col = 0;
            self.row += 1;
        }
        Some(
            match maybe_piece {
                Some(piece) => Some((coord, piece)),
                None => None,
            },
        )
    }
}

/// A walk over the board from one square in one direction, as a sliding piece makes it.
pub struct RayIterator<'a> {
    board: &'a Board,
    current: Coordinate,
    direction: (i8, i8),
    moving_piece_colour: Colour,
    stopped: bool,
}

impl<'a> RayIterator<'a> {
    /// The position that is walked over.
    pub closed spec fn position(&self) -> Position {
        self.board@
    }

    /// The squares that the walk has yet to yield, nearest first.
    pub closed spec fn remaining(&self) -> Seq<Coordinate> {
        if self.stopped {
            Seq::empty()
        } else {
            self.board@.ray(self.current, self.direction, self.moving_piece_colour)
        }
    }

    /// A walk that has not stopped has a direction to go in.
    pub closed spec fn wf(&self) -> bool {
        self.stopped || self.direction.0 != 0 || self.direction.1 != 0
    }

    /// The walk of a piece of the given side from `origin` in `direction`. A walk in direction
    /// `(0, 0)` yields nothing.
    pub fn new(board: &'a Board, origin: Coordinate, direction: (i8, i8), colour: Colour) -> (walk:
        RayIterator<'a>)
        ensures
            walk.wf(),
            walk.position() == board@,
            walk.remaining() == board@.ray(origin, direction, colour),
    {
        RayIterator {
            board,
            current: origin,
            direction,
            moving_piece_colour: colour,
            stopped: direction.0 == 0 && direction.1 == 0,
        }
    }

    /// The next square of the walk, or `None` where the walk has ended: at the edge of the
    /// grid, before a piece of the walking side, or after the capture of an opposing piece.
    pub fn next(&mut self) -> (item: Option<Coordinate>)
        requires
            old(self).wf(),
        ensures
            final(self).wf(),
            final(self).position() == old(self).position(),
            match item {
                Some(c) => c.is_valid() && old(self).remaining() == seq![c] + final(self).remaining(),
                None => old(self).remaining() == Seq::<Coordinate>::empty() && final(self).remaining() == Seq::<Coordinate>::empty(),
            },
    {
        if self.stopped {
            return None;
        }
        match self.current.try_apply_delta(self.direction) {
            Ok(coord) => {
                self.current = coord;
                match self.board.get_square(&coord) {
                    // A piece of the walking side: the walk ends before it.
                    Some(piece) if piece.colour == self.moving_piece_colour => {
                        self.stopped = true;
                        None
                    },
                    // An opposing piece: the walk takes it and ends.
                    Some(_) => {
                        self.stopped = true;
                        Some(coord)
                    },
                    // An empty square: the walk goes on.
                    None => Some(coord),
                }
            },
            Err(_) => {
                self.stopped = true;
                None
            },
        }
    }
}

} // verus!
