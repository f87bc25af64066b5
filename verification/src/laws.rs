//! What holds of every position: how rays end, what pawns may do, when a piece gives check, and
//! that a quiet move can be taken back.

use crate::coordinate::Coordinate;
use crate::moves::Move;
use crate::piece::{Colour, PieceType};
use crate::position::{
    lemma_scan_index, pawn_capture_deltas, ray_span, Position, DIAGONAL_DIRS, KING_DIRS,
    KNIGHT_DELTAS, ORTHOGONAL_DIRS,
};
use crate::reach::{
    is_ahead, lemma_destinations_valid, lemma_directions_head_apart,
    lemma_offsets_contains, lemma_pawn_captures_contains, lemma_ray_ahead, lemma_slide_contains,
    lemma_step_contains, sign,
};
use vstd::prelude::*;

verus! {

/// The square `n` steps from `from` in direction `dir`, where all the steps stay on the grid.
pub open spec fn nth_square(from: Coordinate, dir: (i8, i8), n: nat) -> Option<Coordinate>
    decreases n,
{
    if n == 0 {
        Some(from)
    } else {
        match from.offset(dir) {
            Some(next) => nth_square(next, dir, (n - 1) as nat),
            None => None,
        }
    }
}

/// The first `n` squares from `from` in direction `dir` are on the grid and empty.
pub open spec fn is_clear(pos: Position, from: Coordinate, dir: (i8, i8), n: nat) -> bool {
    forall|k: nat|
        1 <= k <= n ==> ((#[trigger] nth_square(from, dir, k)) matches Some(c) && pos.at(c) is None)
}

/// The first `n` squares of the walk from `from` in direction `dir`, nearest first.
pub open spec fn walked(from: Coordinate, dir: (i8, i8), n: nat) -> Seq<Coordinate> {
    Seq::new(n, |k: int| nth_square(from, dir, (k + 1) as nat)->0)
}

/// A ray over empty squares: where the first `n` squares are empty, the ray is these squares
/// and then the ray from the last of them.
pub proof fn lemma_ray_over_clear(
    pos: Position,
    from: Coordinate,
    dir: (i8, i8),
    colour: Colour,
    n: nat,
)
    requires
        dir.0 != 0 || dir.1 != 0,
        is_clear(pos, from, dir, n),
    ensures
        nth_square(from, dir, n) is Some,
        pos.ray(from, dir, colour) == walked(from, dir, n) + pos.ray(
            nth_square(from, dir, n)->0,
            dir,
            colour,
        ),
    decreases n,
{
    if n == 0 {
        assert(walked(from, dir, n) + pos.ray(from, dir, colour) == pos.ray(from, dir, colour));
    } else {
        assert(nth_square(from, dir, 1) is Some);
        reveal_with_fuel(nth_square, 2);
        let next = from.offset(dir)->0;
        assert(nth_square(from, dir, 1) == Some(next));
        assert(pos.at(next) is None);
        assert(is_clear(pos, next, dir, (n - 1) as nat)) by {
            assert forall|k: nat| 1 <= k <= n - 1 implies ((#[trigger] nth_square(next, dir, k))
                matches Some(c) && pos.at(c) is None) by {
                assert(nth_square(from, dir, k + 1) == nth_square(next, dir, k));
            }
        }
        lemma_ray_over_clear(pos, next, dir, colour, (n - 1) as nat);
        let rest = pos.ray(nth_square(from, dir, n)->0, dir, colour);
        assert(nth_square(from, dir, n) == nth_square(next, dir, (n - 1) as nat));
        assert(walked(from, dir, n) == seq![next] + walked(next, dir, (n - 1) as nat)) by {
            let a = walked(from, dir, n);
            let b = seq![next] + walked(next, dir, (n - 1) as nat);
            assert(a.len() == b.len());
            assert forall|k: int| 0 <= k < a.len() implies a[k] == b[k] by {
                if k > 0 {
                    assert(nth_square(from, dir, (k + 1) as nat) == nth_square(
                        next,
                        dir,
                        k as nat,
                    ));
                }
            }
        }
        assert(pos.ray(from, dir, colour) == seq![next] + pos.ray(next, dir, colour));
        assert(seq![next] + (walked(next, dir, (n - 1) as nat) + rest) == (seq![next] + walked(
            next,
            dir,
            (n - 1) as nat,
        )) + rest);
    }
}

/// A ray stops before a piece of its own side: where the walk passes `n` empty squares and then
/// comes to a piece of the side that walks, the ray is those `n` squares, without the square of
/// that piece.
pub proof fn law_ray_stops_before_friend(
    pos: Position,
    from: Coordinate,
    dir: (i8, i8),
    colour: Colour,
    n: nat,
)
    requires
        dir.0 != 0 || dir.1 != 0,
        is_clear(pos, from, dir, n),
        nth_square(from, dir, n + 1) matches Some(blocker) && pos.holds_side(blocker, colour),
    ensures
        pos.ray(from, dir, colour) == walked(from, dir, n),
        !pos.ray(from, dir, colour).contains(nth_square(from, dir, n + 1)->0),
{
    lemma_ray_over_clear(pos, from, dir, colour, n);
    let last = nth_square(from, dir, n)->0;
    lemma_nth_square_next(from, dir, n);
    assert(pos.ray(last, dir, colour) == Seq::<Coordinate>::empty());
    assert(walked(from, dir, n) + Seq::<Coordinate>::empty() == walked(from, dir, n));
    let blocker = nth_square(from, dir, n + 1)->0;
    if pos.ray(from, dir, colour).contains(blocker) {
        let i = choose|i: int| 0 <= i < n && walked(from, dir, n)[i] == blocker;
        assert(nth_square(from, dir, (i + 1) as nat) == Some(blocker));
    }
}

/// A ray stops on an opposing piece: where the walk passes `n` empty squares and then comes to
/// a piece of the other side, the ray is those `n` squares and the square of that piece, and
/// nothing beyond it.
pub proof fn law_ray_stops_on_foe(
    pos: Position,
    from: Coordinate,
    dir: (i8, i8),
    colour: Colour,
    n: nat,
)
    requires
        dir.0 != 0 || dir.1 != 0,
        is_clear(pos, from, dir, n),
        nth_square(from, dir, n + 1) matches Some(blocker) && pos.holds_side(
            blocker,
            colour.opposite(),
        ),
    ensures
        pos.ray(from, dir, colour) == walked(from, dir, n + 1),
        pos.ray(from, dir, colour).last() == nth_square(from, dir, n + 1)->0,
{
    lemma_ray_over_clear(pos, from, dir, colour, n);
    let last = nth_square(from, dir, n)->0;
    let blocker = nth_square(from, dir, n + 1)->0;
    lemma_nth_square_next(from, dir, n);
    assert(pos.ray(last, dir, colour) == seq![blocker]);
    assert(walked(from, dir, n) + seq![blocker] == walked(from, dir, n + 1));
}

/// A ray stops at the edge: where the walk passes `n` empty squares and the next step leaves
/// the grid, the ray is those `n` squares.
pub proof fn law_ray_stops_at_edge(
    pos: Position,
    from: Coordinate,
    dir: (i8, i8),
    colour: Colour,
    n: nat,
)
    requires
        dir.0 != 0 || dir.1 != 0,
        is_clear(pos, from, dir, n),
        nth_square(from, dir, n + 1) is None,
    ensures
        pos.ray(from, dir, colour) == walked(from, dir, n),
{
    lemma_ray_over_clear(pos, from, dir, colour, n);
    let last = nth_square(from, dir, n)->0;
    lemma_nth_square_next(from, dir, n);
    assert(pos.ray(last, dir, colour) == Seq::<Coordinate>::empty());
    assert(walked(from, dir, n) + Seq::<Coordinate>::empty() == walked(from, dir, n));
}

/// One step more leads from the `n`th square to the next.
pub proof fn lemma_nth_square_next(from: Coordinate, dir: (i8, i8), n: nat)
    ensures
        nth_square(from, dir, n + 1) == match nth_square(from, dir, n) {
            Some(c) => c.offset(dir),
            None => None,
        },
    decreases n,
{
    reveal_with_fuel(nth_square, 2);
    if n == 0 {
    } else {
        match from.offset(dir) {
            Some(next) => {
                lemma_nth_square_next(next, dir, (n - 1) as nat);
            },
            None => {},
        }
    }
}

/// Walking `a` steps and then `b` steps is walking `a + b` steps.
pub proof fn lemma_nth_square_add(from: Coordinate, dir: (i8, i8), a: nat, b: nat)
    ensures
        nth_square(from, dir, a + b) == match nth_square(from, dir, a) {
            Some(c) => nth_square(c, dir, b),
            None => None,
        },
    decreases a,
{
    if a == 0 {
    } else {
        match from.offset(dir) {
            Some(next) => {
                lemma_nth_square_add(next, dir, (a - 1) as nat, b);
            },
            None => {},
        }
    }
}

/// A walk of one step or more leads ahead, and never back to where it began.
pub proof fn lemma_nth_square_ahead(from: Coordinate, dir: (i8, i8), n: nat)
    requires
        dir.0 != 0 || dir.1 != 0,
        n >= 1,
        nth_square(from, dir, n) is Some,
    ensures
        is_ahead(from, dir, nth_square(from, dir, n)->0),
        nth_square(from, dir, n)->0 != from,
        nth_square(from, dir, n)->0.is_valid(),
    decreases n,
{
    reveal_with_fuel(nth_square, 2);
    let next = from.offset(dir)->0;
    if n > 1 {
        lemma_nth_square_ahead(next, dir, (n - 1) as nat);
    }
}

/// The square one, or two, ranks ahead of `origin` for a pawn of the given side.
pub open spec fn square_ahead(origin: Coordinate, colour: Colour, ranks: int) -> Coordinate {
    Coordinate { x: origin.x, y: (origin.y + ranks * colour.forward()) as u8 }
}

/// A pawn on its starting rank with the two squares ahead of it empty may advance to either,
/// and no further; beside these it has its captures, and no capture en passant.
pub proof fn law_pawn_on_starting_rank(pos: Position, origin: Coordinate, colour: Colour)
    requires
        origin.is_valid(),
        origin.y == colour.pawn_rank(),
        pos.at(square_ahead(origin, colour, 1)) is None,
        pos.at(square_ahead(origin, colour, 2)) is None,
    ensures
        pos.pawn_pushes(origin, colour) == seq![
            square_ahead(origin, colour, 1),
            square_ahead(origin, colour, 2),
        ],
        pos.en_passant_target(origin, colour) is None,
        pos.destinations(origin, PieceType::Pawn, colour) == seq![
            square_ahead(origin, colour, 1),
            square_ahead(origin, colour, 2),
        ] + pos.pawn_captures(origin, colour),
        forall|c: Coordinate|
            pos.pawn_captures(origin, colour).contains(c) ==> c.x != origin.x && pos.holds_side(
                c,
                colour.opposite(),
            ),
{
    assert(pos.pawn_destinations(origin, colour) == pos.pawn_pushes(origin, colour)
        + pos.pawn_captures(origin, colour));
    assert forall|c: Coordinate| pos.pawn_captures(origin, colour).contains(c) implies c.x
        != origin.x && pos.holds_side(c, colour.opposite()) by {
        lemma_pawn_captures_contains(pos, origin, colour, c);
    }
}

/// A pawn with a piece on the square ahead of it cannot advance, not even from its starting
/// rank and whatever stands on the second square: each square it can go to lies on another
/// file.
pub proof fn law_pawn_blocked(pos: Position, origin: Coordinate, colour: Colour)
    requires
        origin.is_valid(),
        pos.at(square_ahead(origin, colour, 1)) is Some || !square_ahead(
            origin,
            colour,
            1,
        ).is_valid(),
    ensures
        pos.pawn_pushes(origin, colour) == Seq::<Coordinate>::empty(),
        forall|c: Coordinate|
            pos.destinations(origin, PieceType::Pawn, colour).contains(c) ==> c.x != origin.x,
{
    broadcast use vstd::seq_lib::group_seq_properties;

    assert forall|c: Coordinate|
        pos.destinations(origin, PieceType::Pawn, colour).contains(c) implies c.x != origin.x by {
        lemma_pawn_captures_contains(pos, origin, colour, c);
    }
}

/// A pawn attacks the two squares diagonally ahead of it, and not the square straight ahead.
pub proof fn law_pawn_attacks(pos: Position, from: Coordinate, target: Coordinate)
    requires
        from.is_valid(),
        target.is_valid(),
        pos.at(from) matches Some(piece) && piece.piece_type == PieceType::Pawn,
    ensures
        pos.attacks(from, target) <==> target.y == from.y + pos.at(from)->0.colour.forward() && (
        target.x == from.x + 1 || target.x + 1 == from.x),
{
    let colour = pos.at(from)->0.colour;
    let deltas = pawn_capture_deltas(colour);
    lemma_offsets_contains(from, deltas, target);
    assert(deltas[0] == (1i8, colour.forward()) && deltas[1] == (-1i8, colour.forward()));
    if target.y == from.y + colour.forward() && target.x == from.x + 1 {
        assert(from.offset(deltas[0]) == Some(target));
    }
    if target.y == from.y + colour.forward() && target.x + 1 == from.x {
        assert(from.offset(deltas[1]) == Some(target));
    }
}

/// A king attacks each neighbouring square that holds no piece of its side.
pub proof fn law_king_attacks(pos: Position, from: Coordinate, target: Coordinate)
    requires
        from.is_valid(),
        target.is_valid(),
        pos.at(from) matches Some(piece) && piece.piece_type == PieceType::King,
        target != from,
        -1 <= target.x - from.x <= 1,
        -1 <= target.y - from.y <= 1,
        !pos.holds_side(target, pos.at(from)->0.colour),
    ensures
        pos.attacks(from, target),
{
    let colour = pos.at(from)->0.colour;
    let delta = ((target.x - from.x) as i8, (target.y - from.y) as i8);
    let king = KING_DIRS@;
    assert(king[0] == (1i8, 0i8) && king[1] == (-1i8, 0i8) && king[2] == (0i8, 1i8) && king[3] == (
        0i8,
        -1i8,
    ));
    assert(king[4] == (1i8, 1i8) && king[5] == (1i8, -1i8) && king[6] == (-1i8, 1i8) && king[7]
        == (-1i8, -1i8));
    let i = choose|i: int| 0 <= i < 8 && king[i] == delta;
    assert(from.offset(king[i]) == Some(target));
    lemma_step_contains(pos, from, colour, king, target);
}

/// A knight attacks each square a knight's jump away that holds no piece of its side.
pub proof fn law_knight_attacks(pos: Position, from: Coordinate, target: Coordinate)
    requires
        from.is_valid(),
        target.is_valid(),
        pos.at(from) matches Some(piece) && piece.piece_type == PieceType::Knight,
        ({
            let dx = target.x - from.x;
            let dy = target.y - from.y;
            (dx == 1 || dx == -1) && (dy == 2 || dy == -2) || (dx == 2 || dx == -2) && (dy == 1
                || dy == -1)
        }),
        !pos.holds_side(target, pos.at(from)->0.colour),
    ensures
        pos.attacks(from, target),
{
    let colour = pos.at(from)->0.colour;
    let delta = ((target.x - from.x) as i8, (target.y - from.y) as i8);
    let knight = KNIGHT_DELTAS@;
    assert(knight[0] == (1i8, 2i8) && knight[1] == (1i8, -2i8) && knight[2] == (-1i8, 2i8)
        && knight[3] == (-1i8, -2i8));
    assert(knight[4] == (2i8, 1i8) && knight[5] == (2i8, -1i8) && knight[6] == (-2i8, 1i8)
        && knight[7] == (-2i8, -1i8));
    let i = choose|i: int| 0 <= i < 8 && knight[i] == delta;
    assert(from.offset(knight[i]) == Some(target));
    lemma_step_contains(pos, from, colour, knight, target);
}

/// The directions in which a piece of the given kind slides: none for a piece that does not.
pub open spec fn directions_of(kind: PieceType) -> Seq<(i8, i8)> {
    match kind {
        PieceType::Bishop => DIAGONAL_DIRS@,
        PieceType::Rook => ORTHOGONAL_DIRS@,
        PieceType::Queen => KING_DIRS@,
        _ => Seq::empty(),
    }
}

/// A rook, bishop or queen attacks a square to which one of its rays is clear: where the
/// `n` squares between it and the target, in one of its directions, are empty, and the target
/// holds no piece of its side.
pub proof fn law_slider_attacks(
    pos: Position,
    from: Coordinate,
    target: Coordinate,
    dir: (i8, i8),
    n: nat,
)
    requires
        pos.at(from) is Some,
        directions_of(pos.at(from)->0.piece_type).contains(dir),
        is_clear(pos, from, dir, n),
        nth_square(from, dir, n + 1) == Some(target),
        !pos.holds_side(target, pos.at(from)->0.colour),
    ensures
        pos.attacks(from, target),
{
    broadcast use vstd::seq_lib::group_seq_properties;

    let piece = pos.at(from)->0;
    let dirs = directions_of(piece.piece_type);
    lemma_directions_nonzero();
    let i = choose|i: int| 0 <= i < dirs.len() && dirs[i] == dir;
    let ray = pos.ray(from, dir, piece.colour);
    if pos.at(target) is None {
        assert(is_clear(pos, from, dir, n + 1));
        lemma_ray_over_clear(pos, from, dir, piece.colour, n + 1);
        assert(walked(from, dir, n + 1)[n as int] == target);
    } else {
        law_ray_stops_on_foe(pos, from, dir, piece.colour, n);
        assert(walked(from, dir, n + 1)[n as int] == target);
    }
    assert(ray.contains(target));
    assert(pos.ray(from, dirs[i], piece.colour).contains(target));
    lemma_slide_contains(pos, from, piece.colour, dirs, target);
}

/// A rook, bishop or queen does not attack past a piece of either side: where a piece stands
/// on one of the squares between it and the target, it does not attack the target.
pub proof fn law_slider_blocked(
    pos: Position,
    from: Coordinate,
    target: Coordinate,
    dir: (i8, i8),
    n: nat,
    m: nat,
)
    requires
        pos.at(from) is Some,
        directions_of(pos.at(from)->0.piece_type).contains(dir),
        is_clear(pos, from, dir, n),
        nth_square(from, dir, n + 1) matches Some(blocker) && pos.at(blocker) is Some,
        n + 1 < m,
        nth_square(from, dir, m) == Some(target),
    ensures
        !pos.attacks(from, target),
{
    broadcast use vstd::seq_lib::group_seq_properties;

    let piece = pos.at(from)->0;
    let colour = piece.colour;
    let dirs = directions_of(piece.piece_type);
    lemma_directions_nonzero();
    lemma_directions_head_apart();
    let j = choose|j: int| 0 <= j < dirs.len() && dirs[j] == dir;
    let blocker = nth_square(from, dir, n + 1)->0;
    lemma_nth_square_ahead(from, dir, m);
    if pos.slide_destinations(from, colour, dirs).contains(target) {
        lemma_slide_contains(pos, from, colour, dirs, target);
        let i = choose|i: int|
            0 <= i < dirs.len() && #[trigger] pos.ray(from, dirs[i], colour).contains(target);
        let ray = pos.ray(from, dirs[i], colour);
        let at = choose|at: int| 0 <= at < ray.len() && ray[at] == target;
        if i == j {
            if pos.holds_side(blocker, colour) {
                law_ray_stops_before_friend(pos, from, dir, colour, n);
            } else {
                law_ray_stops_on_foe(pos, from, dir, colour, n);
            }
            let k = (at + 1) as nat;
            assert(nth_square(from, dir, k) == Some(target));
            lemma_nth_square_add(from, dir, k, (m - k) as nat);
            lemma_nth_square_ahead(target, dir, (m - k) as nat);
        } else {
            lemma_ray_ahead(pos, from, dirs[i], colour);
            assert(is_ahead(from, dirs[i], ray[at]));
            if i < j {
                assert(sign(dirs[i].0) != sign(dirs[j].0) || sign(dirs[i].1) != sign(dirs[j].1));
            } else {
                assert(sign(dirs[j].0) != sign(dirs[i].0) || sign(dirs[j].1) != sign(dirs[i].1));
            }
        }
    }
}

/// No piece slides in direction `(0, 0)`.
pub proof fn lemma_directions_nonzero()
    ensures
        forall|kind: PieceType, i: int|
            0 <= i < directions_of(kind).len() ==> (#[trigger] directions_of(kind)[i]).0 != 0
                || directions_of(kind)[i].1 != 0,
{
    let straight = ORTHOGONAL_DIRS@;
    assert(straight[0] == (1i8, 0i8) && straight[1] == (-1i8, 0i8) && straight[2] == (0i8, 1i8)
        && straight[3] == (0i8, -1i8));
    let diagonal = DIAGONAL_DIRS@;
    assert(diagonal[0] == (1i8, 1i8) && diagonal[1] == (1i8, -1i8) && diagonal[2] == (-1i8, 1i8)
        && diagonal[3] == (-1i8, -1i8));
    let king = KING_DIRS@;
    assert(king[0] == (1i8, 0i8) && king[1] == (-1i8, 0i8) && king[2] == (0i8, 1i8) && king[3] == (
        0i8,
        -1i8,
    ));
    assert(king[4] == (1i8, 1i8) && king[5] == (1i8, -1i8) && king[6] == (-1i8, 1i8) && king[7]
        == (-1i8, -1i8));
}

/// A side has one king's square at most: the square of the king that a scan finds last.
pub proof fn lemma_king_square_unique(pos: Position, colour: Colour, king: Coordinate)
    requires
        pos.is_king_square(colour, king),
    ensures
        pos.has_king(colour),
        pos.king_square(colour) == king,
{
    let chosen = pos.king_square(colour);
    assert(pos.is_king_square(colour, chosen));
    lemma_scan_index(king);
    lemma_scan_index(chosen);
}

/// On a board with one king of a side, the square of that king is the king's square.
pub proof fn law_one_king_square(pos: Position, colour: Colour, king: Coordinate)
    requires
        pos.has_one_king(colour),
        pos.is_king_at(colour, king),
    ensures
        pos.is_king_square(colour, king),
        pos.king_square(colour) == king,
{
    lemma_king_square_unique(pos, colour, king);
}

/// A side is in check exactly when a piece of the other side attacks the square of its king.
pub proof fn law_in_check(pos: Position, colour: Colour, king: Coordinate)
    requires
        pos.is_king_square(colour, king),
    ensures
        pos.in_check(colour) <==> exists|attacker: Coordinate|
            attacker.is_valid() && pos.holds_side(attacker, colour.opposite())
                && #[trigger] pos.attacks(attacker, king),
{
    lemma_king_square_unique(pos, colour, king);
}

/// A move that neither captures nor promotes nor castles can be taken back: once it and its
/// inverse are made, every square holds what it held, and the same side is to move.
pub proof fn law_move_and_inverse(pos: Position, mv: Move)
    requires
        pos.wf(),
        pos.is_legal(mv),
        mv.captured is None,
        mv.promotion is None,
        !mv.is_castling,
        !mv.is_en_passant,
    ensures
        pos.after_move(mv).after_move(mv.inverse()).squares == pos.squares,
        pos.after_move(mv).after_move(mv.inverse()).at(mv.from) == pos.at(mv.from),
        pos.after_move(mv).after_move(mv.inverse()).at(mv.to) == pos.at(mv.to),
        pos.after_move(mv).after_move(mv.inverse()).turn == pos.turn,
{
    lemma_destinations_valid(pos, mv.from, mv.piece.piece_type, mv.piece.colour, mv.to);
    assert(pos.at(mv.to) is None);
    assert(pos.after_move(mv).after_move(mv.inverse()).squares =~= pos.squares);
}

/// The square is one of the four corners of the grid.
pub open spec fn is_corner(c: Coordinate) -> bool {
    (c.x == 0 || c.x == 7) && (c.y == 0 || c.y == 7)
}

/// No piece of the given side stands anywhere but on `origin`.
pub open spec fn no_friend_elsewhere(pos: Position, origin: Coordinate, colour: Colour) -> bool {
    forall|c: Coordinate| c != origin ==> !#[trigger] pos.holds_side(c, colour)
}

/// No piece stands anywhere but on `origin`.
pub open spec fn nothing_elsewhere(pos: Position, origin: Coordinate) -> bool {
    forall|c: Coordinate| c != origin ==> (#[trigger] pos.at(c)) is None
}

/// A knight that no piece of its side hinders has two squares to go to from a corner, and
/// eight from a square that lies two squares or more from every edge.
pub proof fn law_knight_counts(pos: Position, origin: Coordinate, colour: Colour)
    requires
        origin.is_valid(),
        no_friend_elsewhere(pos, origin, colour),
    ensures
        is_corner(origin) ==> pos.destinations(origin, PieceType::Knight, colour).len() == 2,
        2 <= origin.x <= 5 && 2 <= origin.y <= 5 ==> pos.destinations(
            origin,
            PieceType::Knight,
            colour,
        ).len() == 8,
{
    let k = KNIGHT_DELTAS@;
    assert(k[0] == (1i8, 2i8) && k[1] == (1i8, -2i8) && k[2] == (-1i8, 2i8) && k[3] == (
        -1i8,
        -2i8,
    ));
    assert(k[4] == (2i8, 1i8) && k[5] == (2i8, -1i8) && k[6] == (-2i8, 1i8) && k[7] == (
        -2i8,
        -1i8,
    ));
    lemma_step_count(pos, origin, colour, k);
    reveal_with_fuel(on_grid_count, 9);
    lemma_take_all(k);
}

/// A king that no piece of its side hinders has three squares to go to from a corner, and eight
/// from a square that lies off every edge.
pub proof fn law_king_counts(pos: Position, origin: Coordinate, colour: Colour)
    requires
        origin.is_valid(),
        no_friend_elsewhere(pos, origin, colour),
    ensures
        is_corner(origin) ==> pos.destinations(origin, PieceType::King, colour).len() == 3,
        1 <= origin.x <= 6 && 1 <= origin.y <= 6 ==> pos.destinations(
            origin,
            PieceType::King,
            colour,
        ).len() == 8,
{
    let k = KING_DIRS@;
    assert(k[0] == (1i8, 0i8) && k[1] == (-1i8, 0i8) && k[2] == (0i8, 1i8) && k[3] == (0i8, -1i8));
    assert(k[4] == (1i8, 1i8) && k[5] == (1i8, -1i8) && k[6] == (-1i8, 1i8) && k[7] == (
        -1i8,
        -1i8,
    ));
    lemma_step_count(pos, origin, colour, k);
    reveal_with_fuel(on_grid_count, 9);
    lemma_take_all(k);
}

/// How many of the first `n` deltas lead from `origin` to a square of the grid.
pub open spec fn on_grid_count(origin: Coordinate, deltas: Seq<(i8, i8)>, n: nat) -> nat
    decreases n,
{
    if n == 0 {
        0
    } else {
        on_grid_count(origin, deltas, (n - 1) as nat) + if origin.offset(deltas[n - 1]) is Some {
            1nat
        } else {
            0nat
        }
    }
}

/// A list is its own beginning of full length.
pub proof fn lemma_take_all<A>(s: Seq<A>)
    ensures
        s.take(s.len() as int) == s,
{
}

/// A stepping piece that no piece of its side hinders can go to as many squares as its deltas,
/// none of which is `(0, 0)`, lead to on the grid.
pub proof fn lemma_step_count(
    pos: Position,
    origin: Coordinate,
    colour: Colour,
    deltas: Seq<(i8, i8)>,
)
    requires
        no_friend_elsewhere(pos, origin, colour),
        forall|i: int| 0 <= i < deltas.len() ==> (#[trigger] deltas[i]).0 != 0 || deltas[i].1 != 0,
    ensures
        pos.step_destinations(origin, colour, deltas).len() == on_grid_count(
            origin,
            deltas,
            deltas.len(),
        ),
    decreases deltas.len(),
{
    reveal(Seq::filter);
    if deltas.len() == 0 {
    } else {
        let rest = deltas.drop_last();
        lemma_step_count(pos, origin, colour, rest);
        lemma_on_grid_count_prefix(origin, deltas, rest, rest.len());
        match origin.offset(deltas.last()) {
            None => {},
            Some(c) => {
                origin.offsets(rest).lemma_filter_push(c, pos.valid_destination_fn(colour));
                assert(origin.offsets(deltas) == origin.offsets(rest).push(c));
            },
        }
    }
}

/// The count over the first `n` deltas looks at these deltas only.
pub proof fn lemma_on_grid_count_prefix(
    origin: Coordinate,
    deltas: Seq<(i8, i8)>,
    other: Seq<(i8, i8)>,
    n: nat,
)
    requires
        n <= deltas.len(),
        n <= other.len(),
        forall|i: int| 0 <= i < n ==> deltas[i] == other[i],
    ensures
        on_grid_count(origin, deltas, n) == on_grid_count(origin, other, n),
    decreases n,
{
    if n > 0 {
        lemma_on_grid_count_prefix(origin, deltas, other, (n - 1) as nat);
    }
}

/// How many steps a walk from `from` can take in direction `dir`, each of whose parts is -1,
/// 0 or 1, before it leaves the grid.
pub open spec fn steps_to_edge(from: Coordinate, dir: (i8, i8)) -> int {
    let along_x = if dir.0 > 0 {
        7 - from.x
    } else if dir.0 < 0 {
        from.x as int
    } else {
        7
    };
    let along_y = if dir.1 > 0 {
        7 - from.y
    } else if dir.1 < 0 {
        from.y as int
    } else {
        7
    };
    if along_x < along_y {
        along_x
    } else {
        along_y
    }
}

/// Over empty squares a ray goes to the edge of the grid.
pub proof fn lemma_ray_to_edge(pos: Position, from: Coordinate, dir: (i8, i8), colour: Colour)
    requires
        from.is_valid(),
        -1 <= dir.0 <= 1,
        -1 <= dir.1 <= 1,
        dir.0 != 0 || dir.1 != 0,
        forall|c: Coordinate| is_ahead(from, dir, c) ==> (#[trigger] pos.at(c)) is None,
    ensures
        pos.ray(from, dir, colour).len() == steps_to_edge(from, dir),
    decreases ray_span(from, dir),
{
    match from.offset(dir) {
        None => {},
        Some(next) => {
            assert(is_ahead(from, dir, next));
            assert(pos.at(next) is None);
            assert forall|c: Coordinate| is_ahead(next, dir, c) implies (#[trigger] pos.at(c))
                is None by {
                assert(is_ahead(from, dir, c));
            }
            lemma_ray_to_edge(pos, next, dir, colour);
        },
    }
}

/// How many squares lie on the four diagonals from `origin`.
pub open spec fn diagonal_reach(origin: Coordinate) -> int {
    steps_to_edge(origin, (1i8, 1i8)) + steps_to_edge(origin, (1i8, -1i8)) + steps_to_edge(
        origin,
        (-1i8, 1i8),
    ) + steps_to_edge(origin, (-1i8, -1i8))
}

/// A rook alone on the board can go to 14 squares from every square. A bishop alone on the
/// board can go to as many squares as lie on its diagonals: 7 from a corner, 13 from one of the
/// four squares in the middle. A queen alone on the board can go where rook and bishop can:
/// to 21 squares from a corner, 27 from the middle.
pub proof fn law_slider_counts(pos: Position, origin: Coordinate, colour: Colour)
    requires
        origin.is_valid(),
        nothing_elsewhere(pos, origin),
    ensures
        pos.destinations(origin, PieceType::Rook, colour).len() == 14,
        pos.destinations(origin, PieceType::Bishop, colour).len() == diagonal_reach(origin),
        pos.destinations(origin, PieceType::Queen, colour).len() == 14 + diagonal_reach(origin),
        is_corner(origin) ==> diagonal_reach(origin) == 7,
        3 <= origin.x <= 4 && 3 <= origin.y <= 4 ==> diagonal_reach(origin) == 13,
{
    let straight = ORTHOGONAL_DIRS@;
    assert(straight[0] == (1i8, 0i8) && straight[1] == (-1i8, 0i8) && straight[2] == (0i8, 1i8)
        && straight[3] == (0i8, -1i8));
    let diagonal = DIAGONAL_DIRS@;
    assert(diagonal[0] == (1i8, 1i8) && diagonal[1] == (1i8, -1i8) && diagonal[2] == (-1i8, 1i8)
        && diagonal[3] == (-1i8, -1i8));
    let all = KING_DIRS@;
    assert(all[0] == (1i8, 0i8) && all[1] == (-1i8, 0i8) && all[2] == (0i8, 1i8) && all[3] == (
        0i8,
        -1i8,
    ));
    assert(all[4] == (1i8, 1i8) && all[5] == (1i8, -1i8) && all[6] == (-1i8, 1i8) && all[7] == (
        -1i8,
        -1i8,
    ));
    assert forall|i: int| 0 <= i < 8 implies pos.ray(origin, #[trigger] all[i], colour).len()
        == steps_to_edge(origin, all[i]) by {
        assert forall|c: Coordinate| is_ahead(origin, all[i], c) implies (#[trigger] pos.at(c))
            is None by {
            assert(c != origin);
        }
        lemma_ray_to_edge(pos, origin, all[i], colour);
    }
    lemma_slide_count(pos, origin, colour, straight, 4);
    lemma_slide_count(pos, origin, colour, diagonal, 4);
    lemma_slide_count(pos, origin, colour, all, 8);
    lemma_take_all(straight);
    lemma_take_all(diagonal);
    lemma_take_all(all);
    assert(straight[0] == all[0] && straight[1] == all[1] && straight[2] == all[2] && straight[3]
        == all[3]);
    assert(diagonal[0] == all[4] && diagonal[1] == all[5] && diagonal[2] == all[6] && diagonal[3]
        == all[7]);
    reveal_with_fuel(ray_count, 9);
}

/// How many squares the rays in the first `n` directions hold together.
pub open spec fn ray_count(
    pos: Position,
    origin: Coordinate,
    colour: Colour,
    dirs: Seq<(i8, i8)>,
    n: nat,
) -> nat
    decreases n,
{
    if n == 0 {
        0
    } else {
        ray_count(pos, origin, colour, dirs, (n - 1) as nat) + pos.ray(
            origin,
            dirs[n - 1],
            colour,
        ).len()
    }
}

/// A sliding piece can go to as many squares as its rays hold together.
pub proof fn lemma_slide_count(
    pos: Position,
    origin: Coordinate,
    colour: Colour,
    dirs: Seq<(i8, i8)>,
    n: nat,
)
    requires
        n <= dirs.len(),
    ensures
        pos.slide_destinations(origin, colour, dirs.take(n as int)).len() == ray_count(
            pos,
            origin,
            colour,
            dirs,
            n,
        ),
    decreases n,
{
    if n > 0 {
        lemma_slide_count(pos, origin, colour, dirs, (n - 1) as nat);
        assert(dirs.take(n as int).drop_last() == dirs.take(n - 1));
    }
}

} // verus!
