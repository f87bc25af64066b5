//! Squares of the 8x8 grid, and stepping from one to another.

use crate::error::ChessError;
use vstd::prelude::*;

verus! {

/// A square of the board: file `x` and rank `y`, both in `0..8`.
#[derive(Clone, Copy, Debug, PartialEq, Eq, Structural)]
pub struct Coordinate {
    pub x: u8,
    pub y: u8,
}

impl Coordinate {
    /// Both components lie on the grid.
    pub open spec fn is_valid(self) -> bool {
        self.x < 8 && self.y < 8
    }

    /// The square `delta` away from this one, where that square is on the grid.
    pub open spec fn offset(self, delta: (i8, i8)) -> Option<Coordinate> {
        let x = self.x + delta.0;
        let y = self.y + delta.1;
        if 0 <= x < 8 && 0 <= y < 8 {
            Some(Coordinate { x: x as u8, y: y as u8 })
        } else {
            None
        }
    }

    /// `offset` as a function of the delta alone.
    pub open spec fn offset_fn(self) -> spec_fn((i8, i8)) -> Option<Coordinate> {
        |delta: (i8, i8)| self.offset(delta)
    }

    /// The squares that the deltas lead to, in the order of the deltas, without those off the
    /// grid.
    pub open spec fn offsets(self, deltas: Seq<(i8, i8)>) -> Seq<Coordinate> {
        deltas.filter_map(self.offset_fn())
    }

    /// The square with the given file and rank, or `OutOfBounds` where one of them is 8 or more.
    pub fn new(x: u8, y: u8) -> (made: Result<Coordinate, ChessError>)
        ensures
            x < 8 && y < 8 ==> made == Ok::<Coordinate, ChessError>(Coordinate { x, y }),
            !(x < 8 && y < 8) ==> made == Err::<Coordinate, ChessError>(ChessError::OutOfBounds),
            made matches Ok(c) ==> c.is_valid(),
    {
        if x < 8 && y < 8 {
            Ok(Coordinate::new_unchecked(x, y))
        } else {
            Err(ChessError::OutOfBounds)
        }
    }

    /// The square with the given file and rank, which the caller has shown to be on the grid.
    pub fn new_unchecked(x: u8, y: u8) -> (c: Coordinate)
        requires
            x < 8,
            y < 8,
        ensures
            c == (Coordinate { x, y }),
            c.is_valid(),
    {
        Coordinate { x, y }
    }

    /// The square `delta` away from this one, or `OutOfBounds` where that leaves the grid.
    pub fn try_apply_delta(&self, delta: (i8, i8)) -> (moved: Result<Coordinate, ChessError>)
        ensures
            moved == match self.offset(delta) {
                Some(c) => Ok::<Coordinate, ChessError>(c),
                None => Err::<Coordinate, ChessError>(ChessError::OutOfBounds),
            },
            moved matches Ok(c) ==> c.is_valid(),
    {
        let new_x: i16 = self.x as i16 + delta.0 as i16;
        let new_y: i16 = self.y as i16 + delta.1 as i16;
        if 0 <= new_x && new_x < 8 && 0 <= new_y && new_y < 8 {
            Ok(Coordinate { x: new_x as u8, y: new_y as u8 })
        } else {
            Err(ChessError::OutOfBounds)
        }
    }

    /// The squares that the deltas lead to, in the order of the deltas. A delta that leaves the
    /// grid is dropped: the batch never fails.
    pub fn apply_deltas(&self, deltas: &[(i8, i8)]) -> (reached: Vec<Coordinate>)
        ensures
            reached@ == self.offsets(deltas@),
            forall|i: int| 0 <= i < reached@.len() ==> (#[trigger] reached@[i]).is_valid(),
    {
        let mut reached: Vec<Coordinate> = Vec::new();
        let mut i: usize = 0;
        while i < deltas.len()
            invariant
                i <= deltas.len(),
                reached@ == self.offsets(deltas@.take(i as int)),
                forall|k: int| 0 <= k < reached@.len() ==> (#[trigger] reached@[k]).is_valid(),
            decreases deltas.len() - i,
        {
            match self.try_apply_delta(deltas[i]) {
                Ok(c) => {
                    reached.push(c);
                },
                Err(_) => {},
            }
            proof {
                deltas@.lemma_filter_map_take_succ(self.offset_fn(), i as int);
            }
            i += 1;
        }
        assert(deltas@.take(deltas@.len() as int) =~= deltas@);
        reached
    }
}

} // verus!
