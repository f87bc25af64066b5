//! The moves that the side to move may make.

use crate::board::Board;
use crate::coordinate::Coordinate;
use crate::error::ChessError;
use crate::moves::{CastlingSide, Move, KING_FILE};
use crate::piece::{Colour, Piece, PieceType};
use crate::position::{lemma_scan_index, lemma_scan_square, scan_index, Position};
use crate::reach::{
    lemma_destinations_no_duplicates, lemma_filter_contains, lemma_filter_no_duplicates,
};
use vstd::prelude::*;
use vstd::seq_lib::{
    lemma_no_dup_in_concat, lemma_seq_concat_contains_all_elements, lemma_seq_contains_after_push,
};

verus! {

impl Board {
    /// The record of the move of `piece` from `from` to `to`, castling apart, with what it
    /// captures.
    pub fn record_move(&self, piece: Piece, from: Coordinate, to: Coordinate, promotion: Option<
        Piece,
    >) -> (mv: Move)
        requires
            from.is_valid(),
            to.is_valid(),
        ensures
            mv == self@.record(piece, from, to, promotion),
    {
        let landing = self.get_square(&to);
        let is_en_passant = piece.piece_type == PieceType::Pawn && to.x != from.x
            && landing.is_none();
        let captured = if is_en_passant {
            self.get_square(&Coordinate { x: to.x, y: from.y })
        } else {
            landing
        };
        Move { piece, from, to, captured, promotion, is_castling: false, is_en_passant }
    }

    /// The records of the move of `piece` from `from` to `to`: one for each piece that a pawn
    /// may turn into where a pawn crosses the board, and one record otherwise.
    pub fn moves_to(&self, piece: Piece, from: Coordinate, to: Coordinate) -> (moves: Vec<Move>)
        requires
            from.is_valid(),
            to.is_valid(),
        ensures
            forall|mv: Move|
                moves@.contains(mv) <==> Position::promotion_fits(piece, to, mv.promotion) && mv
                    == self@.record(piece, from, to, mv.promotion),
            moves@.no_duplicates(),
    {
        let mut moves: Vec<Move> = Vec::new();
        if piece.piece_type == PieceType::Pawn && to.y == piece.colour.opposite().back_rank() {
            let colour = piece.colour;
            moves.push(self.record_move(piece, from, to, Some(Piece::queen(colour))));
            moves.push(self.record_move(piece, from, to, Some(Piece::rook(colour))));
            moves.push(self.record_move(piece, from, to, Some(Piece::bishop(colour))));
            moves.push(self.record_move(piece, from, to, Some(Piece::knight(colour))));
            proof {
                assert(moves@.len() == 4);
                assert forall|mv: Move|
                    Position::promotion_fits(piece, to, mv.promotion) && mv == self@.record(
                        piece,
                        from,
                        to,
                        mv.promotion,
                    ) implies moves@.contains(mv) by {
                    let kind = mv.promotion->0.piece_type;
                    if kind == PieceType::Queen {
                        assert(moves@[0] == mv);
                    } else if kind == PieceType::Rook {
                        assert(moves@[1] == mv);
                    } else if kind == PieceType::Bishop {
                        assert(moves@[2] == mv);
                    } else {
                        assert(moves@[3] == mv);
                    }
                }
            }
        } else {
            moves.push(self.record_move(piece, from, to, None));
            proof {
                assert forall|mv: Move|
                    Position::promotion_fits(piece, to, mv.promotion) && mv == self@.record(
                        piece,
                        from,
                        to,
                        mv.promotion,
                    ) implies moves@.contains(mv) by {
                    assert(moves@[0] == mv);
                }
            }
        }
        moves
    }

    /// The moves that the piece on `from` may make if it may leave its own king in check,
    /// castling apart. There are none where the square is empty or holds a piece of the side
    /// not to move.
    pub fn moves_from(&self, from: &Coordinate) -> (moves: Vec<Move>)
        requires
            from.is_valid(),
        ensures
            forall|mv: Move|
                moves@.contains(mv) <==> mv.from == *from && !mv.is_castling
                    && self@.is_pseudo_legal(mv),
            moves@.no_duplicates(),
            forall|i: int| 0 <= i < moves@.len() ==> (#[trigger] moves@[i]).to.is_valid(),
    {
        broadcast use vstd::seq_lib::group_seq_properties;

        let mut moves: Vec<Move> = Vec::new();
        let piece = match self.get_square(from) {
            Some(piece) => piece,
            None => {
                return moves;
            },
        };
        if piece.colour != self.turn() {
            return moves;
        }
        let reached = piece.piece_type.generate_pseudo_legal_moves(self, &piece, *from);
        proof {
            lemma_destinations_no_duplicates(self@, *from, piece.piece_type, piece.colour);
        }
        let mut j: usize = 0;
        while j < reached.len()
            invariant
                j <= reached.len(),
                from.is_valid(),
                reached@ == self@.destinations(*from, piece.piece_type, piece.colour),
                reached@.no_duplicates(),
                forall|i: int| 0 <= i < reached@.len() ==> (#[trigger] reached@[i]).is_valid(),
                forall|mv: Move|
                    moves@.contains(mv) <==> reached@.take(j as int).contains(mv.to)
                        && Position::promotion_fits(piece, mv.to, mv.promotion) && mv
                        == self@.record(piece, *from, mv.to, mv.promotion),
                moves@.no_duplicates(),
                forall|i: int| 0 <= i < moves@.len() ==> (#[trigger] moves@[i]).to.is_valid(),
            decreases reached.len() - j,
        {
            let to = reached[j];
            let mut more = self.moves_to(piece, *from, to);
            let ghost before = moves@;
            let ghost added = more@;
            proof {
                assert(reached@.take(j + 1) == reached@.take(j as int).push(to));
                assert forall|a: int, b: int|
                    0 <= a < moves@.len() && 0 <= b < more@.len() implies moves@[a] != more@[b] by {
                    assert(moves@.contains(moves@[a]));
                    assert(more@.contains(more@[b]));
                    let k = choose|k: int|
                        0 <= k < reached@.take(j as int).len() && reached@.take(j as int)[k]
                            == moves@[a].to;
                    assert(reached@[k] == moves@[a].to);
                }
                lemma_no_dup_in_concat(moves@, more@);
                assert forall|i: int| 0 <= i < more@.len() implies (#[trigger] more@[i]).to
                    == to by {
                    assert(more@.contains(more@[i]));
                }
            }
            moves.append(&mut more);
            proof {
                assert(moves@ == before + added);
                assert forall|mv: Move|
                    moves@.contains(mv) <==> reached@.take(j + 1).contains(mv.to)
                        && Position::promotion_fits(piece, mv.to, mv.promotion) && mv
                        == self@.record(piece, *from, mv.to, mv.promotion) by {
                    lemma_seq_concat_contains_all_elements(before, added, mv);
                    lemma_seq_contains_after_push(reached@.take(j as int), to, mv.to);
                    if before.contains(mv) {
                        assert(reached@.take(j as int).contains(mv.to));
                    }
                    if added.contains(mv) {
                        assert(mv.to == to);
                        assert(reached@.take(j + 1).last() == to);
                    }
                    if reached@.take(j + 1).contains(mv.to) && Position::promotion_fits(
                        piece,
                        mv.to,
                        mv.promotion,
                    ) && mv == self@.record(piece, *from, mv.to, mv.promotion) {
                        if mv.to == to {
                            assert(added.contains(mv));
                        } else {
                            assert(reached@.take(j as int).contains(mv.to));
                            assert(before.contains(mv));
                        }
                    }
                }
            }
            j += 1;
        }
        proof {
            assert(reached@.take(reached@.len() as int) == reached@);
        }
        moves
    }

    /// The given side may castle on the given wing: it still has the right, its king and
    /// that rook stand on their starting squares with nothing between them, and the opponent
    /// attacks neither the king's square nor the one it passes over nor the one it lands on.
    pub fn can_castle(&self, colour: Colour, side: CastlingSide) -> (allowed: bool)
        ensures
            allowed == self@.can_castle(colour, side),
    {
        let rank = colour.back_rank();
        let enemy = colour.opposite();
        let king = Coordinate { x: KING_FILE, y: rank };
        let corner = Coordinate { x: side.rook_file(), y: rank };
        let passed = Coordinate { x: side.rook_target_file(), y: rank };
        let landing = Coordinate { x: side.king_target_file(), y: rank };
        if !self.castling_rights(colour).allows(side) {
            return false;
        }
        let king_home = match self.get_square(&king) {
            Some(piece) => piece == Piece::king(colour),
            None => false,
        };
        let rook_home = match self.get_square(&corner) {
            Some(piece) => piece == Piece::rook(colour),
            None => false,
        };
        if !king_home || !rook_home {
            return false;
        }
        if self.get_square(&passed).is_some() || self.get_square(&landing).is_some() {
            return false;
        }
        match side {
            CastlingSide::Queenside => {
                if self.get_square(&Coordinate { x: 1, y: rank }).is_some() {
                    return false;
                }
            },
            CastlingSide::Kingside => {},
        }
        !self.is_attacked_by(&king, enemy) && !self.is_attacked_by(&passed, enemy)
            && !self.is_attacked_by(&landing, enemy)
    }

    /// The record of castling by the given side on the given wing.
    pub fn castling_move(colour: Colour, side: CastlingSide) -> (mv: Move)
        ensures
            mv == Position::castling_move(colour, side),
            mv.from.is_valid(),
            mv.to.is_valid(),
    {
        Move {
            piece: Piece::king(colour),
            from: Coordinate { x: KING_FILE, y: colour.back_rank() },
            to: Coordinate { x: side.king_target_file(), y: colour.back_rank() },
            captured: None,
            promotion: None,
            is_castling: true,
            is_en_passant: false,
        }
    }

    /// The castling moves that the side to move may make if it may leave its king in check.
    pub fn castling_moves(&self) -> (moves: Vec<Move>)
        ensures
            forall|mv: Move|
                moves@.contains(mv) <==> mv.is_castling && self@.is_pseudo_legal(mv),
            moves@.no_duplicates(),
            forall|i: int|
                0 <= i < moves@.len() ==> (#[trigger] moves@[i]).from.is_valid()
                    && moves@[i].to.is_valid(),
    {
        broadcast use vstd::seq_lib::group_seq_properties;

        let colour = self.turn();
        let mut moves: Vec<Move> = Vec::new();
        if self.can_castle(colour, CastlingSide::Kingside) {
            moves.push(Board::castling_move(colour, CastlingSide::Kingside));
        }
        let ghost short = moves@;
        if self.can_castle(colour, CastlingSide::Queenside) {
            moves.push(Board::castling_move(colour, CastlingSide::Queenside));
        }
        proof {
            let king = Position::castling_move(colour, CastlingSide::Kingside);
            let queen = Position::castling_move(colour, CastlingSide::Queenside);
            assert forall|mv: Move| moves@.contains(mv) implies mv.is_castling
                && self@.is_pseudo_legal(mv) by {
                if mv == king {
                    assert(self@.can_castle(colour, CastlingSide::Kingside));
                } else {
                    assert(mv == queen);
                    assert(self@.can_castle(colour, CastlingSide::Queenside));
                }
            }
            assert forall|mv: Move| mv.is_castling && self@.is_pseudo_legal(mv) implies moves@.contains(
                mv,
            ) by {
                let side = choose|side: CastlingSide|
                    self@.can_castle(colour, side) && mv == #[trigger] Position::castling_move(
                        colour,
                        side,
                    );
                match side {
                    CastlingSide::Kingside => {
                        assert(moves@[0] == mv);
                    },
                    CastlingSide::Queenside => {
                        assert(moves@[moves@.len() - 1] == mv);
                    },
                }
            }
        }
        moves
    }

    /// The moves that the side to move may make if it may leave its own king in check.
    pub fn pseudo_legal_moves(&self) -> (moves: Vec<Move>)
        ensures
            forall|mv: Move| moves@.contains(mv) <==> self@.is_pseudo_legal(mv),
            moves@.no_duplicates(),
            forall|i: int|
                0 <= i < moves@.len() ==> (#[trigger] moves@[i]).from.is_valid()
                    && moves@[i].to.is_valid(),
    {
        broadcast use vstd::seq_lib::group_seq_properties;

        let mut moves: Vec<Move> = Vec::new();
        let mut scan = self.into_iter();
        loop
            invariant
                scan.wf(),
                scan.position() == self@,
                forall|mv: Move|
                    moves@.contains(mv) <==> scan_index(mv.from) < scan.scanned()
                        && !mv.is_castling && self@.is_pseudo_legal(mv),
                moves@.no_duplicates(),
                forall|i: int|
                    0 <= i < moves@.len() ==> (#[trigger] moves@[i]).from.is_valid()
                        && moves@[i].to.is_valid(),
            ensures
                scan.scanned() >= 64,
                forall|mv: Move|
                    moves@.contains(mv) <==> scan_index(mv.from) < scan.scanned()
                        && !mv.is_castling && self@.is_pseudo_legal(mv),
                moves@.no_duplicates(),
                forall|i: int|
                    0 <= i < moves@.len() ==> (#[trigger] moves@[i]).from.is_valid()
                        && moves@[i].to.is_valid(),
            decreases 64 - scan.scanned(),
        {
            let ghost place = scan.scanned();
            let ghost before = moves@;
            proof {
                scan.lemma_scanned_bounds();
                if place < 64 {
                    lemma_scan_square(place);
                }
            }
            match scan.next() {
                None => {
                    break ;
                },
                Some(None) => {
                    proof {
                        assert forall|mv: Move|
                            scan_index(mv.from) < scan.scanned() && !mv.is_castling
                                && self@.is_pseudo_legal(mv) implies moves@.contains(mv) by {
                            lemma_scan_index(mv.from);
                        }
                    }
                },
                Some(Some((coord, piece))) => {
                    let mut more = self.moves_from(&coord);
                    let ghost added = more@;
                    proof {
                        assert forall|a: int, b: int|
                            0 <= a < moves@.len() && 0 <= b < more@.len() implies moves@[a]
                            != more@[b] by {
                            assert(moves@.contains(moves@[a]));
                            assert(more@.contains(more@[b]));
                        }
                        lemma_no_dup_in_concat(moves@, more@);
                        assert forall|i: int| 0 <= i < more@.len() implies (#[trigger] more@[i]).from
                            == coord by {
                            assert(more@.contains(more@[i]));
                        }
                    }
                    moves.append(&mut more);
                    proof {
                        assert(moves@ == before + added);
                        assert forall|mv: Move|
                            moves@.contains(mv) <==> scan_index(mv.from) < scan.scanned()
                                && !mv.is_castling && self@.is_pseudo_legal(mv) by {
                            lemma_seq_concat_contains_all_elements(before, added, mv);
                            if before.contains(mv) {
                                assert(scan_index(mv.from) < place);
                            }
                            if added.contains(mv) {
                                assert(mv.from == coord);
                            }
                            if scan_index(mv.from) < scan.scanned() && !mv.is_castling
                                && self@.is_pseudo_legal(mv) {
                                lemma_scan_index(mv.from);
                                if scan_index(mv.from) < place {
                                    assert(before.contains(mv));
                                } else {
                                    assert(mv.from == coord);
                                    assert(added.contains(mv));
                                }
                            }
                        }
                    }
                },
            }
        }
        let mut castling = self.castling_moves();
        proof {
            assert forall|a: int, b: int|
                0 <= a < moves@.len() && 0 <= b < castling@.len() implies moves@[a]
                != castling@[b] by {
                assert(moves@.contains(moves@[a]));
                assert(castling@.contains(castling@[b]));
            }
            lemma_no_dup_in_concat(moves@, castling@);
            assert forall|mv: Move| self@.is_pseudo_legal(mv) && !mv.is_castling implies scan_index(
                mv.from,
            ) < 64 by {
                lemma_scan_index(mv.from);
            }
        }
        moves.append(&mut castling);
        moves
    }

    /// Once `mv` is made, the king of the side that made it is not attacked.
    fn is_safe(&self, mv: Move) -> (safe: bool)
        requires
            mv.from.is_valid(),
            mv.to.is_valid(),
            self@.at(mv.from) == Some(mv.piece),
        ensures
            safe == self@.is_safe(mv),
    {
        let mut scratch = self.clone();
        // The piece stands on its origin, so the move is made.
        match scratch.make_move(mv) {
            Ok(_) => {},
            Err(_) => {},
        }
        // A side without a king is not in check.
        match scratch.is_in_check(self.turn()) {
            Ok(attacked) => !attacked,
            Err(_) => true,
        }
    }

    /// Every move that the side to move may make: each move of one of its pieces, and each
    /// castling, after which its own king is not attacked. The moves come in no order that a
    /// caller may rely on, and none comes twice. Where the side to move has no king, this fails
    /// with `NoKing`.
    pub fn get_legal_moves(&self) -> (legal: Result<Vec<Move>, ChessError>)
        ensures
            match legal {
                Ok(moves) => self@.has_king(self@.turn) && moves@.no_duplicates() && forall|
                    mv: Move,
                |
                    moves@.contains(mv) <==> self@.is_legal(mv),
                Err(e) => e == ChessError::NoKing && !self@.has_king(self@.turn),
            },
    {
        if self.find_king(self.turn()).is_none() {
            return Err(ChessError::NoKing);
        }
        let candidates = self.pseudo_legal_moves();
        let mut moves: Vec<Move> = Vec::new();
        let mut i: usize = 0;
        proof {
            reveal(Seq::filter);
        }
        while i < candidates.len()
            invariant
                i <= candidates.len(),
                forall|mv: Move| candidates@.contains(mv) <==> self@.is_pseudo_legal(mv),
                forall|k: int|
                    0 <= k < candidates@.len() ==> (#[trigger] candidates@[k]).from.is_valid()
                        && candidates@[k].to.is_valid(),
                moves@ == candidates@.take(i as int).filter(self@.is_safe_fn()),
            decreases candidates.len() - i,
        {
            let mv = candidates[i];
            proof {
                assert(candidates@.contains(mv));
            }
            if self.is_safe(mv) {
                moves.push(mv);
            }
            proof {
                assert(candidates@.take(i + 1) == candidates@.take(i as int).push(mv));
                candidates@.take(i as int).lemma_filter_push(mv, self@.is_safe_fn());
            }
            i += 1;
        }
        proof {
            assert(candidates@.take(candidates@.len() as int) == candidates@);
            lemma_filter_no_duplicates(candidates@, self@.is_safe_fn());
            assert forall|mv: Move| moves@.contains(mv) <==> self@.is_legal(mv) by {
                lemma_filter_contains(candidates@, self@.is_safe_fn(), mv);
            }
        }
        Ok(moves)
    }

    /// The side to move is checkmated: its king is attacked and it has no move. Where it has
    /// no king, this fails with `NoKing`.
    pub fn is_checkmate(&self) -> (mate: Result<bool, ChessError>)
        ensures
            match mate {
                Ok(mated) => self@.has_king(self@.turn) && mated == self@.is_checkmate(),
                Err(e) => e == ChessError::NoKing && !self@.has_king(self@.turn),
            },
    {
        let attacked = match self.is_in_check(self.turn()) {
            Ok(attacked) => attacked,
            Err(e) => {
                return Err(e);
            },
        };
        match self.get_legal_moves() {
            Ok(moves) => {
                proof {
                    if moves@.len() > 0 {
                        assert(moves@.contains(moves@[0]));
                    }
                }
                Ok(attacked && moves.len() == 0)
            },
            Err(e) => Err(e),
        }
    }

    /// The side to move is stalemated: its king is not attacked and it has no move. Where it
    /// has no king, this fails with `NoKing`.
    pub fn is_stalemate(&self) -> (stale: Result<bool, ChessError>)
        ensures
            match stale {
                Ok(stuck) => self@.has_king(self@.turn) && stuck == self@.is_stalemate(),
                Err(e) => e == ChessError::NoKing && !self@.has_king(self@.turn),
            },
    {
        let attacked = match self.is_in_check(self.turn()) {
            Ok(attacked) => attacked,
            Err(e) => {
                return Err(e);
            },
        };
        match self.get_legal_moves() {
            Ok(moves) => {
                proof {
                    if moves@.len() > 0 {
                        assert(moves@.contains(moves@[0]));
                    }
                }
                Ok(!attacked && moves.len() == 0)
            },
            Err(e) => Err(e),
        }
    }
}

} // verus!
