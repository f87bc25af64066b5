use chess_core::board::Board;
use chess_core::coordinate::Coordinate;
use chess_core::piece::{Colour, Piece, PieceType};

fn check_is_in_check_returns_true(
    king_colour: Colour,
    king_pos: Coordinate,
    attacker_pos: Coordinate,
    attacker_type: PieceType,
) {
    let mut board = Board::empty();
    board.set_square(king_pos, Some(Piece::king(king_colour)));

    let attacker = Piece::new(attacker_type, king_colour.opposite());
    board.set_square(attacker_pos, Some(attacker));

    assert!(board.is_in_check(king_colour).unwrap());
}

fn check_is_in_check_returns_false(
    king_colour: Colour,
    king_pos: Coordinate,
    pieces: Vec<(Coordinate, Piece)>,
) {
    let mut board = Board::empty();
    board.set_square(king_pos, Some(Piece::king(king_colour)));

    for (pos, piece) in pieces {
        board.set_square(pos, Some(piece));
    }

    assert!(!board.is_in_check(king_colour).unwrap());
}

#[test]
fn is_in_check_errors_when_no_king() {
    let board = Board::empty();
    let result = board.is_in_check(Colour::White);
    assert!(result.is_err());
    assert_eq!(result.unwrap_err().message(), "No king found for the given colour");
}

#[test]
fn is_in_check_with_multiple_attackers() {
    let mut board = Board::empty();
    let king_pos = Coordinate::new_unchecked(4, 4);
    board.set_square(king_pos, Some(Piece::king(Colour::White)));

    // Two black pieces both attacking the king
    board.set_square(Coordinate::new_unchecked(4, 7), Some(Piece::rook(Colour::Black)));
    board.set_square(Coordinate::new_unchecked(6, 6), Some(Piece::bishop(Colour::Black)));

    assert!(board.is_in_check(Colour::White).unwrap());
}

#[test]
fn is_in_check_returns_true_white_king_checked_by_black_pawn_left() {
    check_is_in_check_returns_true(
        Colour::White,
        Coordinate::new_unchecked(4, 4),
        Coordinate::new_unchecked(3, 5),
        PieceType::Pawn,
    );
}

#[test]
fn is_in_check_returns_true_white_king_checked_by_black_pawn_right() {
    check_is_in_check_returns_true(
        Colour::White,
        Coordinate::new_unchecked(4, 4),
        Coordinate::new_unchecked(5, 5),
        PieceType::Pawn,
    );
}

#[test]
fn is_in_check_returns_true_black_king_checked_by_white_pawn_left() {
    check_is_in_check_returns_true(
        Colour::Black,
        Coordinate::new_unchecked(4, 4),
        Coordinate::new_unchecked(3, 3),
        PieceType::Pawn,
    );
}

#[test]
fn is_in_check_returns_true_black_king_checked_by_white_pawn_right() {
    check_is_in_check_returns_true(
        Colour::Black,
        Coordinate::new_unchecked(4, 4),
        Coordinate::new_unchecked(5, 3),
        PieceType::Pawn,
    );
}

#[test]
fn is_in_check_returns_true_white_king_checked_by_knight() {
    check_is_in_check_returns_true(
        Colour::White,
        Coordinate::new_unchecked(4, 4),
        Coordinate::new_unchecked(5, 6),
        PieceType::Knight,
    );
}

#[test]
fn is_in_check_returns_true_black_king_checked_by_knight() {
    check_is_in_check_returns_true(
        Colour::Black,
        Coordinate::new_unchecked(4, 4),
        Coordinate::new_unchecked(6, 5),
        PieceType::Knight,
    );
}

#[test]
fn is_in_check_returns_true_white_king_checked_by_bishop_diagonal() {
    check_is_in_check_returns_true(
        Colour::White,
        Coordinate::new_unchecked(4, 4),
        Coordinate::new_unchecked(6, 6),
        PieceType::Bishop,
    );
}

#[test]
fn is_in_check_returns_true_black_king_checked_by_bishop_diagonal() {
    check_is_in_check_returns_true(
        Colour::Black,
        Coordinate::new_unchecked(4, 4),
        Coordinate::new_unchecked(2, 2),
        PieceType::Bishop,
    );
}

#[test]
fn is_in_check_returns_true_white_king_checked_by_rook_horizontal() {
    check_is_in_check_returns_true(
        Colour::White,
        Coordinate::new_unchecked(4, 4),
        Coordinate::new_unchecked(7, 4),
        PieceType::Rook,
    );
}

#[test]
fn is_in_check_returns_true_white_king_checked_by_rook_vertical() {
    check_is_in_check_returns_true(
        Colour::White,
        Coordinate::new_unchecked(4, 4),
        Coordinate::new_unchecked(4, 0),
        PieceType::Rook,
    );
}

#[test]
fn is_in_check_returns_true_black_king_checked_by_rook_horizontal() {
    check_is_in_check_returns_true(
        Colour::Black,
        Coordinate::new_unchecked(4, 4),
        Coordinate::new_unchecked(0, 4),
        PieceType::Rook,
    );
}

#[test]
fn is_in_check_returns_true_white_king_checked_by_queen_diagonal() {
    check_is_in_check_returns_true(
        Colour::White,
        Coordinate::new_unchecked(4, 4),
        Coordinate::new_unchecked(7, 7),
        PieceType::Queen,
    );
}

#[test]
fn is_in_check_returns_true_white_king_checked_by_queen_horizontal() {
    check_is_in_check_returns_true(
        Colour::White,
        Coordinate::new_unchecked(4, 4),
        Coordinate::new_unchecked(4, 7),
        PieceType::Queen,
    );
}

#[test]
fn is_in_check_returns_true_black_king_checked_by_queen_diagonal() {
    check_is_in_check_returns_true(
        Colour::Black,
        Coordinate::new_unchecked(4, 4),
        Coordinate::new_unchecked(1, 1),
        PieceType::Queen,
    );
}

#[test]
fn is_in_check_returns_true_white_king_checked_by_king() {
    check_is_in_check_returns_true(
        Colour::White,
        Coordinate::new_unchecked(4, 4),
        Coordinate::new_unchecked(5, 5),
        PieceType::King,
    );
}

#[test]
fn is_in_check_returns_false_king_alone() {
    check_is_in_check_returns_false(
        Colour::White, Coordinate::new_unchecked(4, 4), vec![],
    );
}

#[test]
fn is_in_check_returns_false_king_with_friendly_pieces() {
    check_is_in_check_returns_false(
        Colour::White,
        Coordinate::new_unchecked(4, 4),
        vec![
            (Coordinate::new_unchecked(3, 3), Piece::rook(Colour::White)),
            (Coordinate::new_unchecked(5, 5), Piece::bishop(Colour::White)),
        ],
    );
}

#[test]
fn is_in_check_returns_false_enemy_pawn_wrong_diagonal() {
    check_is_in_check_returns_false(
        Colour::White,
        Coordinate::new_unchecked(4, 4),
        vec![
            (Coordinate::new_unchecked(3, 3), Piece::pawn(Colour::Black)),
        ],
    );
}

#[test]
fn is_in_check_returns_false_enemy_pawn_in_front() {
    check_is_in_check_returns_false(
        Colour::White,
        Coordinate::new_unchecked(4, 4),
        vec![
            (Coordinate::new_unchecked(4, 5), Piece::pawn(Colour::Black)),
        ],
    );
}

#[test]
fn is_in_check_returns_false_enemy_knight_not_in_range() {
    check_is_in_check_returns_false(
        Colour::White,
        Coordinate::new_unchecked(4, 4),
        vec![
            (Coordinate::new_unchecked(4, 6), Piece::knight(Colour::Black)),
        ],
    );
}

#[test]
fn is_in_check_returns_false_enemy_rook_blocked() {
    check_is_in_check_returns_false(
        Colour::White,
        Coordinate::new_unchecked(4, 4),
        vec![
            (Coordinate::new_unchecked(4, 7), Piece::rook(Colour::Black)),
            (Coordinate::new_unchecked(4, 6), Piece::pawn(Colour::Black)),
        ],
    );
}

#[test]
fn is_in_check_returns_false_enemy_bishop_blocked() {
    check_is_in_check_returns_false(
        Colour::White,
        Coordinate::new_unchecked(4, 4),
        vec![
            (Coordinate::new_unchecked(7, 7), Piece::bishop(Colour::Black)),
            (Coordinate::new_unchecked(5, 5), Piece::pawn(Colour::White)),
        ],
    );
}

#[test]
fn is_in_check_returns_false_enemy_queen_blocked() {
    check_is_in_check_returns_false(
        Colour::Black,
        Coordinate::new_unchecked(4, 4),
        vec![
            (Coordinate::new_unchecked(0, 4), Piece::queen(Colour::White)),
            (Coordinate::new_unchecked(2, 4), Piece::knight(Colour::Black)),
        ],
    );
}
