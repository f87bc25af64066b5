//! Facts about the squares that pieces reach: they lie on the grid, and none is reached twice.

use crate::coordinate::Coordinate;
use crate::piece::{Colour, PieceType};
use crate::position::{
    pawn_capture_deltas, ray_span, Position, DIAGONAL_DIRS, KING_DIRS, KNIGHT_DELTAS,
    ORTHOGONAL_DIRS,
};
use vstd::prelude::*;
use vstd::seq_lib::lemma_no_dup_in_concat;

verus! {

/// A square is reached by at most one delta.
pub proof fn lemma_offset_injective(origin: Coordinate, first: (i8, i8), second: (i8, i8))
    requires
        origin.offset(first) is Some,
        origin.offset(first) == origin.offset(second),
    ensures
        first == second,
{
}

/// The squares that a list of deltas leads to are those that one of the deltas leads to.
pub proof fn lemma_offsets_contains(origin: Coordinate, deltas: Seq<(i8, i8)>, c: Coordinate)
    ensures
        origin.offsets(deltas).contains(c) <==> exists|i: int|
            0 <= i < deltas.len() && origin.offset(#[trigger] deltas[i]) == Some(c),
    decreases deltas.len(),
{
    broadcast use vstd::seq_lib::group_seq_properties;

    if deltas.len() == 0 {
    } else {
        let rest = deltas.drop_last();
        let last = deltas.last();
        lemma_offsets_contains(origin, rest, c);
        if origin.offsets(deltas).contains(c) {
            if origin.offsets(rest).contains(c) {
                let i = choose|i: int|
                    0 <= i < rest.len() && origin.offset(#[trigger] rest[i]) == Some(c);
                assert(deltas[i] == rest[i]);
            } else {
                assert(origin.offset(deltas[deltas.len() - 1]) == Some(c));
            }
        }
        if exists|i: int| 0 <= i < deltas.len() && origin.offset(#[trigger] deltas[i]) == Some(c) {
            let i = choose|i: int|
                0 <= i < deltas.len() && origin.offset(#[trigger] deltas[i]) == Some(c);
            if i < deltas.len() - 1 {
                assert(rest[i] == deltas[i]);
                assert(origin.offsets(rest).contains(c));
            } else {
                assert(origin.offsets(deltas) == origin.offsets(rest) + seq![c]);
                assert(seq![c][0] == c);
            }
        }
    }
}

/// Deltas that differ lead to squares that differ.
pub proof fn lemma_offsets_no_duplicates(origin: Coordinate, deltas: Seq<(i8, i8)>)
    requires
        deltas.no_duplicates(),
    ensures
        origin.offsets(deltas).no_duplicates(),
    decreases deltas.len(),
{
    broadcast use vstd::seq_lib::group_seq_properties;

    if deltas.len() == 0 {
    } else {
        let rest = deltas.drop_last();
        let last = deltas.last();
        lemma_offsets_no_duplicates(origin, rest);
        match origin.offset(last) {
            None => {},
            Some(c) => {
                if origin.offsets(rest).contains(c) {
                    lemma_offsets_contains(origin, rest, c);
                    let i = choose|i: int|
                        0 <= i < rest.len() && origin.offset(#[trigger] rest[i]) == Some(c);
                    lemma_offset_injective(origin, last, rest[i]);
                    assert(deltas[i] == deltas[deltas.len() - 1]);
                }
                assert(origin.offsets(deltas) == origin.offsets(rest).push(c));
            },
        }
    }
}

/// What is kept of a list without repetition is without repetition.
pub proof fn lemma_filter_no_duplicates<A>(s: Seq<A>, keep: spec_fn(A) -> bool)
    requires
        s.no_duplicates(),
    ensures
        s.filter(keep).no_duplicates(),
    decreases s.len(),
{
    broadcast use vstd::seq_lib::group_seq_properties;

    reveal(Seq::filter);
    if s.len() == 0 {
    } else {
        let rest = s.drop_last();
        lemma_filter_no_duplicates(rest, keep);
        if keep(s.last()) {
            if rest.filter(keep).contains(s.last()) {
                rest.lemma_filter_contains_rev(keep, s.last());
                let i = choose|i: int| 0 <= i < rest.len() && rest[i] == s.last();
                assert(s[i] == s[s.len() - 1]);
            }
        }
    }
}

/// What is kept of a list is in the list, and is as the filter wants it.
pub proof fn lemma_filter_contains<A>(s: Seq<A>, keep: spec_fn(A) -> bool, a: A)
    ensures
        s.filter(keep).contains(a) <==> s.contains(a) && keep(a),
{
    broadcast use vstd::seq_lib::group_seq_properties;

    if s.filter(keep).contains(a) {
        s.lemma_filter_contains_rev(keep, a);
        let i = choose|i: int| 0 <= i < s.filter(keep).len() && s.filter(keep)[i] == a;
        s.lemma_filter_pred(keep, i);
    }
    if s.contains(a) && keep(a) {
        let i = choose|i: int| 0 <= i < s.len() && s[i] == a;
        s.lemma_filter_contains(keep, i);
    }
}

/// The sign of a step along one axis.
pub open spec fn sign(step: i8) -> int {
    if step > 0 {
        1
    } else if step < 0 {
        -1
    } else {
        0
    }
}

/// `c` lies ahead of `from` for one who looks in direction `dir`: along each axis it lies to the
/// side to which the direction points, and level where the direction does not move.
pub open spec fn is_ahead(from: Coordinate, dir: (i8, i8), c: Coordinate) -> bool {
    sign(dir.0) == (if c.x > from.x {
        1int
    } else if c.x < from.x {
        -1int
    } else {
        0int
    }) && sign(dir.1) == (if c.y > from.y {
        1int
    } else if c.y < from.y {
        -1int
    } else {
        0int
    })
}

/// Every square of a ray is on the grid and lies ahead of the square that the ray starts from.
pub proof fn lemma_ray_ahead(pos: Position, from: Coordinate, dir: (i8, i8), colour: Colour)
    ensures
        forall|i: int|
            0 <= i < pos.ray(from, dir, colour).len() ==> (#[trigger] pos.ray(
                from,
                dir,
                colour,
            )[i]).is_valid() && is_ahead(from, dir, pos.ray(from, dir, colour)[i]),
    decreases ray_span(from, dir),
{
    if dir.0 == 0 && dir.1 == 0 {
    } else {
        match from.offset(dir) {
            None => {},
            Some(next) => {
                if pos.at(next) is None {
                    lemma_ray_ahead(pos, next, dir, colour);
                    let rest = pos.ray(next, dir, colour);
                    let ray = pos.ray(from, dir, colour);
                    assert forall|i: int| 0 <= i < ray.len() implies (#[trigger] ray[i]).is_valid()
                        && is_ahead(from, dir, ray[i]) by {
                        if i > 0 {
                            assert(ray[i] == rest[i - 1]);
                        }
                    }
                }
            },
        }
    }
}

/// No square comes twice in a ray.
pub proof fn lemma_ray_no_duplicates(pos: Position, from: Coordinate, dir: (i8, i8), colour: Colour)
    ensures
        pos.ray(from, dir, colour).no_duplicates(),
    decreases ray_span(from, dir),
{
    if dir.0 == 0 && dir.1 == 0 {
    } else {
        match from.offset(dir) {
            None => {},
            Some(next) => {
                if pos.at(next) is None {
                    lemma_ray_no_duplicates(pos, next, dir, colour);
                    lemma_ray_ahead(pos, next, dir, colour);
                    let rest = pos.ray(next, dir, colour);
                    let ray = pos.ray(from, dir, colour);
                    assert forall|i: int, j: int|
                        0 <= i < ray.len() && 0 <= j < ray.len() && i != j implies ray[i]
                        != ray[j] by {
                        if i > 0 {
                            assert(ray[i] == rest[i - 1]);
                        }
                        if j > 0 {
                            assert(ray[j] == rest[j - 1]);
                        }
                    }
                }
            },
        }
    }
}

/// Two rays from one square that head different ways share no square.
pub proof fn lemma_rays_disjoint(
    pos: Position,
    from: Coordinate,
    first: (i8, i8),
    second: (i8, i8),
    colour: Colour,
)
    requires
        sign(first.0) != sign(second.0) || sign(first.1) != sign(second.1),
    ensures
        forall|i: int, j: int|
            0 <= i < pos.ray(from, first, colour).len() && 0 <= j < pos.ray(
                from,
                second,
                colour,
            ).len() ==> pos.ray(from, first, colour)[i] != pos.ray(from, second, colour)[j],
{
    lemma_ray_ahead(pos, from, first, colour);
    lemma_ray_ahead(pos, from, second, colour);
}

/// The squares that a sliding piece reaches are those of its rays.
pub proof fn lemma_slide_contains(
    pos: Position,
    origin: Coordinate,
    colour: Colour,
    dirs: Seq<(i8, i8)>,
    c: Coordinate,
)
    ensures
        pos.slide_destinations(origin, colour, dirs).contains(c) <==> exists|i: int|
            0 <= i < dirs.len() && #[trigger] pos.ray(origin, dirs[i], colour).contains(c),
    decreases dirs.len(),
{
    broadcast use vstd::seq_lib::group_seq_properties;

    if dirs.len() == 0 {
    } else {
        let rest = dirs.drop_last();
        lemma_slide_contains(pos, origin, colour, rest, c);
        if pos.slide_destinations(origin, colour, dirs).contains(c) {
            if pos.slide_destinations(origin, colour, rest).contains(c) {
                let i = choose|i: int|
                    0 <= i < rest.len() && #[trigger] pos.ray(origin, rest[i], colour).contains(c);
                assert(dirs[i] == rest[i]);
            } else {
                assert(pos.ray(origin, dirs[dirs.len() - 1], colour).contains(c));
            }
        }
        if exists|i: int|
            0 <= i < dirs.len() && #[trigger] pos.ray(origin, dirs[i], colour).contains(c) {
            let i = choose|i: int|
                0 <= i < dirs.len() && #[trigger] pos.ray(origin, dirs[i], colour).contains(c);
            if i < dirs.len() - 1 {
                assert(rest[i] == dirs[i]);
            }
        }
    }
}

/// No two of the directions head the same way.
pub open spec fn head_apart(dirs: Seq<(i8, i8)>) -> bool {
    forall|i: int, j: int|
        0 <= i < j < dirs.len() ==> sign((#[trigger] dirs[i]).0) != sign((#[trigger] dirs[j]).0)
            || sign(dirs[i].1) != sign(dirs[j].1)
}

/// A sliding piece whose directions head apart reaches no square twice.
pub proof fn lemma_slide_no_duplicates(
    pos: Position,
    origin: Coordinate,
    colour: Colour,
    dirs: Seq<(i8, i8)>,
)
    requires
        head_apart(dirs),
    ensures
        pos.slide_destinations(origin, colour, dirs).no_duplicates(),
    decreases dirs.len(),
{
    broadcast use vstd::seq_lib::group_seq_properties;

    if dirs.len() == 0 {
    } else {
        let rest = dirs.drop_last();
        let last = dirs.last();
        assert(head_apart(rest)) by {
            assert forall|i: int, j: int| 0 <= i < j < rest.len() implies sign(
                (#[trigger] rest[i]).0,
            ) != sign((#[trigger] rest[j]).0) || sign(rest[i].1) != sign(rest[j].1) by {
                assert(rest[i] == dirs[i] && rest[j] == dirs[j]);
            }
        }
        lemma_slide_no_duplicates(pos, origin, colour, rest);
        lemma_ray_no_duplicates(pos, origin, last, colour);
        let before = pos.slide_destinations(origin, colour, rest);
        let ray = pos.ray(origin, last, colour);
        assert forall|i: int, j: int| 0 <= i < before.len() && 0 <= j < ray.len() implies before[i]
            != ray[j] by {
            if before[i] == ray[j] {
                assert(before.contains(ray[j]));
                lemma_slide_contains(pos, origin, colour, rest, ray[j]);
                let k = choose|k: int|
                    0 <= k < rest.len() && #[trigger] pos.ray(origin, rest[k], colour).contains(
                        ray[j],
                    );
                assert(rest[k] == dirs[k]);
                assert(last == dirs[dirs.len() - 1]);
                lemma_rays_disjoint(pos, origin, dirs[k], last, colour);
            }
        }
        lemma_no_dup_in_concat(before, ray);
    }
}

/// The squares that a stepping piece reaches are those on the grid that one of its deltas leads
/// to and that hold no piece of its side.
pub proof fn lemma_step_contains(
    pos: Position,
    origin: Coordinate,
    colour: Colour,
    deltas: Seq<(i8, i8)>,
    c: Coordinate,
)
    ensures
        pos.step_destinations(origin, colour, deltas).contains(c) <==> pos.is_valid_destination(
            c,
            colour,
        ) && exists|i: int| 0 <= i < deltas.len() && origin.offset(#[trigger] deltas[i]) == Some(c),
{
    lemma_filter_contains(origin.offsets(deltas), pos.valid_destination_fn(colour), c);
    lemma_offsets_contains(origin, deltas, c);
}

/// The jumps of the knight differ from one another, and so do the steps of the king.
pub proof fn lemma_deltas_differ()
    ensures
        KNIGHT_DELTAS@.no_duplicates(),
        KING_DIRS@.no_duplicates(),
{
    let knight = KNIGHT_DELTAS@;
    assert(knight[0] == (1i8, 2i8) && knight[1] == (1i8, -2i8) && knight[2] == (-1i8, 2i8)
        && knight[3] == (-1i8, -2i8));
    assert(knight[4] == (2i8, 1i8) && knight[5] == (2i8, -1i8) && knight[6] == (-2i8, 1i8)
        && knight[7] == (-2i8, -1i8));
    let king = KING_DIRS@;
    assert(king[0] == (1i8, 0i8) && king[1] == (-1i8, 0i8) && king[2] == (0i8, 1i8) && king[3] == (
        0i8,
        -1i8,
    ));
    assert(king[4] == (1i8, 1i8) && king[5] == (1i8, -1i8) && king[6] == (-1i8, 1i8) && king[7]
        == (-1i8, -1i8));
}

/// The directions of each sliding piece head apart.
pub proof fn lemma_directions_head_apart()
    ensures
        head_apart(ORTHOGONAL_DIRS@),
        head_apart(DIAGONAL_DIRS@),
        head_apart(KING_DIRS@),
{
    let straight = ORTHOGONAL_DIRS@;
    assert(straight[0] == (1i8, 0i8) && straight[1] == (-1i8, 0i8) && straight[2] == (0i8, 1i8)
        && straight[3] == (0i8, -1i8));
    let diagonal = DIAGONAL_DIRS@;
    assert(diagonal[0] == (1i8, 1i8) && diagonal[1] == (1i8, -1i8) && diagonal[2] == (-1i8, 1i8)
        && diagonal[3] == (-1i8, -1i8));
    let king = KING_DIRS@;
    assert(king[0] == (1i8, 0i8) && king[1] == (-1i8, 0i8) && king[2] == (0i8, 1i8) && king[3] == (
        0i8,
        -1i8,
    ));
    assert(king[4] == (1i8, 1i8) && king[5] == (1i8, -1i8) && king[6] == (-1i8, 1i8) && king[7]
        == (-1i8, -1i8));
}

/// The squares on which a pawn captures are the squares diagonally ahead of it, on the grid,
/// that hold an opposing piece.
pub proof fn lemma_pawn_captures_contains(
    pos: Position,
    origin: Coordinate,
    colour: Colour,
    c: Coordinate,
)
    ensures
        pos.pawn_captures(origin, colour).contains(c) <==> pos.holds_side(c, colour.opposite()) && (
        origin.offset((1i8, colour.forward())) == Some(c) || origin.offset(
            (-1i8, colour.forward()),
        ) == Some(c)),
{
    let deltas = pawn_capture_deltas(colour);
    lemma_filter_contains(origin.offsets(deltas), pos.holds_side_fn(colour.opposite()), c);
    lemma_offsets_contains(origin, deltas, c);
    assert(deltas[0] == (1i8, colour.forward()) && deltas[1] == (-1i8, colour.forward()));
}

/// A pawn reaches no square twice.
pub proof fn lemma_pawn_no_duplicates(pos: Position, origin: Coordinate, colour: Colour)
    ensures
        pos.pawn_destinations(origin, colour).no_duplicates(),
{
    broadcast use vstd::seq_lib::group_seq_properties;

    let pushes = pos.pawn_pushes(origin, colour);
    let captures = pos.pawn_captures(origin, colour);
    let deltas = pawn_capture_deltas(colour);
    assert(deltas[0] == (1i8, colour.forward()) && deltas[1] == (-1i8, colour.forward()));
    lemma_offsets_no_duplicates(origin, deltas);
    lemma_filter_no_duplicates(origin.offsets(deltas), pos.holds_side_fn(colour.opposite()));
    assert forall|i: int, j: int| 0 <= i < pushes.len() && 0 <= j < captures.len() implies pushes[i]
        != captures[j] by {
        assert(captures.contains(captures[j]));
        lemma_pawn_captures_contains(pos, origin, colour, captures[j]);
    }
    lemma_no_dup_in_concat(pushes, captures);
    match pos.en_passant_target(origin, colour) {
        None => {
            assert(pos.pawn_destinations(origin, colour) == pushes + captures);
        },
        Some(target) => {
            let before = pushes + captures;
            let last = seq![target];
            assert forall|i: int, j: int| 0 <= i < before.len() && 0 <= j < last.len() implies {
                before[i] != last[j]
            } by {
                if i >= pushes.len() {
                    let k = i - pushes.len();
                    assert(before[i] == captures[k]);
                    assert(captures.contains(captures[k]));
                    lemma_pawn_captures_contains(pos, origin, colour, captures[k]);
                } else {
                    assert(before[i] == pushes[i]);
                }
            }
            lemma_no_dup_in_concat(before, last);
        },
    }
}

/// Every square that a piece can go to is on the grid.
pub proof fn lemma_destinations_valid(
    pos: Position,
    origin: Coordinate,
    kind: PieceType,
    colour: Colour,
    c: Coordinate,
)
    requires
        pos.destinations(origin, kind, colour).contains(c),
    ensures
        c.is_valid(),
{
    broadcast use vstd::seq_lib::group_seq_properties;

    match kind {
        PieceType::Pawn => {
            lemma_pawn_captures_contains(pos, origin, colour, c);
        },
        PieceType::Knight => {
            lemma_step_contains(pos, origin, colour, KNIGHT_DELTAS@, c);
        },
        PieceType::King => {
            lemma_step_contains(pos, origin, colour, KING_DIRS@, c);
        },
        PieceType::Bishop => {
            lemma_slide_valid(pos, origin, colour, DIAGONAL_DIRS@, c);
        },
        PieceType::Rook => {
            lemma_slide_valid(pos, origin, colour, ORTHOGONAL_DIRS@, c);
        },
        PieceType::Queen => {
            lemma_slide_valid(pos, origin, colour, KING_DIRS@, c);
        },
    }
}

/// Every square that a sliding piece reaches is on the grid.
pub proof fn lemma_slide_valid(
    pos: Position,
    origin: Coordinate,
    colour: Colour,
    dirs: Seq<(i8, i8)>,
    c: Coordinate,
)
    requires
        pos.slide_destinations(origin, colour, dirs).contains(c),
    ensures
        c.is_valid(),
{
    lemma_slide_contains(pos, origin, colour, dirs, c);
    let i = choose|i: int|
        0 <= i < dirs.len() && #[trigger] pos.ray(origin, dirs[i], colour).contains(c);
    lemma_ray_ahead(pos, origin, dirs[i], colour);
}

/// No piece can go to one square in two ways: the list of its destinations holds each square
/// once.
pub proof fn lemma_destinations_no_duplicates(
    pos: Position,
    origin: Coordinate,
    kind: PieceType,
    colour: Colour,
)
    ensures
        pos.destinations(origin, kind, colour).no_duplicates(),
{
    lemma_deltas_differ();
    lemma_directions_head_apart();
    match kind {
        PieceType::Pawn => {
            lemma_pawn_no_duplicates(pos, origin, colour);
        },
        PieceType::Knight => {
            lemma_offsets_no_duplicates(origin, KNIGHT_DELTAS@);
            lemma_filter_no_duplicates(
                origin.offsets(KNIGHT_DELTAS@),
                pos.valid_destination_fn(colour),
            );
        },
        PieceType::King => {
            lemma_offsets_no_duplicates(origin, KING_DIRS@);
            lemma_filter_no_duplicates(origin.offsets(KING_DIRS@), pos.valid_destination_fn(colour));
        },
        PieceType::Bishop => {
            lemma_slide_no_duplicates(pos, origin, colour, DIAGONAL_DIRS@);
        },
        PieceType::Rook => {
            lemma_slide_no_duplicates(pos, origin, colour, ORTHOGONAL_DIRS@);
        },
        PieceType::Queen => {
            lemma_slide_no_duplicates(pos, origin, colour, KING_DIRS@);
        },
    }
}

} // verus!
