//! Attacks, check, and whether a position may have arisen in play.

use crate::board::Board;
use crate::coordinate::Coordinate;
use crate::error::ChessError;
use crate::piece::{Colour, PieceType};
use crate::position::{lemma_scan_index, lemma_scan_square, pawn_capture_deltas, scan_index};
use vstd::prelude::*;

verus! {

/// `c` is one of `squares`.
pub fn contains_square(squares: &Vec<Coordinate>, c: &Coordinate) -> (found: bool)
    ensures
        found == squares@.contains(*c),
{
    let mut i: usize = 0;
    while i < squares.len()
        invariant
            i <= squares.len(),
            forall|k: int| 0 <= k < i ==> squares@[k] != *c,
        decreases squares.len() - i,
    {
        if squares[i] == *c {
            return true;
        }
        i += 1;
    }
    false
}

impl Board {
    /// The piece on `from` attacks `target`: a pawn the two squares diagonally ahead of it,
    /// any other piece the squares it can go to. An empty square attacks nothing.
    pub fn attacks(&self, from: &Coordinate, target: &Coordinate) -> (attacked: bool)
        requires
            from.is_valid(),
        ensures
            attacked == self@.attacks(*from, *target),
    {
        match self.get_square(from) {
            None => false,
            Some(piece) => match piece.piece_type {
                PieceType::Pawn => {
                    let direction = piece.colour.forward();
                    let diagonals = [(1i8, direction), (-1i8, direction)];
                    assert(diagonals@ == pawn_capture_deltas(piece.colour));
                    let reached = from.apply_deltas(&diagonals);
                    contains_square(&reached, target)
                },
                kind => {
                    let reached = kind.generate_pseudo_legal_moves(self, &piece, *from);
                    contains_square(&reached, target)
                },
            },
        }
    }

    /// Some piece of the given side attacks `target`.
    pub fn is_attacked_by(&self, target: &Coordinate, colour: Colour) -> (attacked: bool)
        ensures
            attacked == self@.attacked_by(*target, colour),
    {
        let mut scan = self.into_iter();
        loop
            invariant
                scan.wf(),
                scan.position() == self@,
                forall|c: Coordinate|
                    c.is_valid() && scan_index(c) < scan.scanned() && self@.holds_side(c, colour)
                        ==> !#[trigger] self@.attacks(c, *target),
            ensures
                scan.scanned() >= 64,
                forall|c: Coordinate|
                    c.is_valid() && scan_index(c) < scan.scanned() && self@.holds_side(c, colour)
                        ==> !#[trigger] self@.attacks(c, *target),
            decreases 64 - scan.scanned(),
        {
            let ghost place = scan.scanned();
            proof {
                scan.lemma_scanned_bounds();
                if place < 64 {
                    lemma_scan_square(place);
                }
            }
            match scan.next() {
                None => {
                    break ;
                },
                Some(None) => {},
                Some(Some((coord, piece))) => {
                    if piece.colour == colour && self.attacks(&coord, target) {
                        return true;
                    }
                },
            }
            proof {
                assert forall|c: Coordinate|
                    c.is_valid() && scan_index(c) < scan.scanned() && self@.holds_side(
                        c,
                        colour,
                    ) implies !#[trigger] self@.attacks(c, *target) by {
                    lemma_scan_index(c);
                }
            }
        }
        proof {
            assert forall|c: Coordinate|
                c.is_valid() && self@.holds_side(c, colour) implies !#[trigger] self@.attacks(
                c,
                *target,
            ) by {
                lemma_scan_index(c);
            }
        }
        false
    }

    /// The square of the king of the given side: of the one that a scan of the board finds
    /// last, should there be several. `None` where the side has no king.
    pub fn find_king(&self, colour: Colour) -> (king: Option<Coordinate>)
        ensures
            match king {
                Some(c) => self@.is_king_square(colour, c) && c == self@.king_square(colour),
                None => !self@.has_king(colour),
            },
    {
        let mut king: Option<Coordinate> = None;
        let mut scan = self.into_iter();
        loop
            invariant
                scan.wf(),
                scan.position() == self@,
                match king {
                    Some(k) => self@.is_king_at(colour, k) && scan_index(k) < scan.scanned(),
                    None => true,
                },
                forall|d: Coordinate|
                    #[trigger] self@.is_king_at(colour, d) && scan_index(d) < scan.scanned()
                        ==> king is Some && scan_index(d) <= scan_index(king->0),
            ensures
                scan.scanned() >= 64,
                match king {
                    Some(k) => self@.is_king_at(colour, k) && scan_index(k) < scan.scanned(),
                    None => true,
                },
                forall|d: Coordinate|
                    #[trigger] self@.is_king_at(colour, d) && scan_index(d) < scan.scanned()
                        ==> king is Some && scan_index(d) <= scan_index(king->0),
            decreases 64 - scan.scanned(),
        {
            let ghost place = scan.scanned();
            let ghost before = king;
            proof {
                scan.lemma_scanned_bounds();
                if place < 64 {
                    lemma_scan_square(place);
                }
            }
            match scan.next() {
                None => {
                    break ;
                },
                Some(None) => {},
                Some(Some((coord, piece))) => {
                    if piece.colour == colour && piece.piece_type == PieceType::King {
                        king = Some(coord);
                    }
                },
            }
            proof {
                assert forall|d: Coordinate|
                    #[trigger] self@.is_king_at(colour, d) && scan_index(d)
                        < scan.scanned() implies king is Some && scan_index(d) <= scan_index(
                    king->0,
                ) by {
                    lemma_scan_index(d);
                }
            }
        }
        match king {
            Some(k) => {
                proof {
                    assert forall|d: Coordinate| self@.is_king_at(colour, d) implies scan_index(d)
                        <= scan_index(k) by {
                        lemma_scan_index(d);
                    }
                    assert(self@.is_king_square(colour, k));
                    let chosen = self@.king_square(colour);
                    assert(self@.is_king_square(colour, chosen));
                    lemma_scan_index(k);
                    lemma_scan_index(chosen);
                }
                Some(k)
            },
            None => {
                proof {
                    assert forall|d: Coordinate| !self@.is_king_at(colour, d) by {
                        if d.is_valid() {
                            lemma_scan_index(d);
                        }
                    }
                }
                None
            },
        }
    }

    /// Whether the king of the given side is attacked, or `NoKing` where the board holds no
    /// king of that side.
    pub fn is_in_check(&self, colour: Colour) -> (check: Result<bool, ChessError>)
        ensures
            match check {
                Ok(attacked) => self@.has_king(colour) && attacked == self@.in_check(colour),
                Err(e) => e == ChessError::NoKing && !self@.has_king(colour),
            },
    {
        match self.find_king(colour) {
            Some(king) => Ok(self.is_attacked_by(&king, colour.opposite())),
            None => Err(ChessError::NoKing),
        }
    }

    /// The board holds exactly one king of the given side.
    pub fn has_one_king(&self, colour: Colour) -> (one: bool)
        ensures
            one == self@.has_one_king(colour),
    {
        let mut first: Option<Coordinate> = None;
        let mut several = false;
        let mut scan = self.into_iter();
        loop
            invariant
                scan.wf(),
                scan.position() == self@,
                match first {
                    Some(k) => self@.is_king_at(colour, k) && scan_index(k) < scan.scanned(),
                    None => !several,
                },
                several ==> exists|d: Coordinate|
                    #[trigger] self@.is_king_at(colour, d) && d != first->0,
                !several ==> forall|d: Coordinate|
                    #[trigger] self@.is_king_at(colour, d) && scan_index(d) < scan.scanned()
                        ==> first == Some(d),
            ensures
                scan.scanned() >= 64,
                match first {
                    Some(k) => self@.is_king_at(colour, k) && scan_index(k) < scan.scanned(),
                    None => !several,
                },
                several ==> exists|d: Coordinate|
                    #[trigger] self@.is_king_at(colour, d) && d != first->0,
                !several ==> forall|d: Coordinate|
                    #[trigger] self@.is_king_at(colour, d) && scan_index(d) < scan.scanned()
                        ==> first == Some(d),
            decreases 64 - scan.scanned(),
        {
            let ghost place = scan.scanned();
            proof {
                scan.lemma_scanned_bounds();
                if place < 64 {
                    lemma_scan_square(place);
                }
            }
            match scan.next() {
                None => {
                    break ;
                },
                Some(None) => {},
                Some(Some((coord, piece))) => {
                    if piece.colour == colour && piece.piece_type == PieceType::King {
                        match first {
                            Some(k) => {
                                proof {
                                    lemma_scan_index(k);
                                    assert(self@.is_king_at(colour, coord) && coord != k);
                                }
                                several = true;
                            },
                            None => {
                                first = Some(coord);
                            },
                        }
                    }
                },
            }
            proof {
                if !several {
                    assert forall|d: Coordinate|
                        #[trigger] self@.is_king_at(colour, d) && scan_index(d)
                            < scan.scanned() implies first == Some(d) by {
                        lemma_scan_index(d);
                    }
                }
            }
        }
        proof {
            if first is Some && !several {
                assert forall|d: Coordinate| self@.is_king_at(colour, d) implies d == first->0 by {
                    lemma_scan_index(d);
                }
            }
            if first is None {
                assert forall|d: Coordinate| !self@.is_king_at(colour, d) by {
                    if d.is_valid() {
                        lemma_scan_index(d);
                    }
                }
            }
        }
        first.is_some() && !several
    }

    /// The position may have arisen in play: each side has exactly one king, and the side
    /// that is not to move is not in check.
    pub fn is_board_legal(&self) -> (legal: bool)
        ensures
            legal == self@.is_legal_position(),
    {
        if !self.has_one_king(Colour::White) || !self.has_one_king(Colour::Black) {
            return false;
        }
        match self.is_in_check(self.turn().opposite()) {
            Ok(attacked) => !attacked,
            Err(_) => false,
        }
    }
}

} // verus!
