use chess_core::coordinate::Coordinate;
use chess_core::error::{ChessError, PieceMismatch};
use chess_core::piece::{Colour, Piece, PieceType};

#[test]
fn new_accepts_every_square_of_the_grid() {
    for x in 0..8u8 {
        for y in 0..8u8 {
            let c = Coordinate::new(x, y).unwrap();
            assert_eq!(c.x, x);
            assert_eq!(c.y, y);
            assert_eq!(c, Coordinate::new_unchecked(x, y));
        }
    }
}

#[test]
fn new_rejects_what_is_off_the_grid() {
    assert_eq!(Coordinate::new(8, 0), Err(ChessError::OutOfBounds));
    assert_eq!(Coordinate::new(0, 8), Err(ChessError::OutOfBounds));
    assert_eq!(Coordinate::new(8, 8), Err(ChessError::OutOfBounds));
    assert_eq!(Coordinate::new(255, 3), Err(ChessError::OutOfBounds));
    assert_eq!(Coordinate::new(3, 255), Err(ChessError::OutOfBounds));
    for x in 8..=255u8 {
        assert!(Coordinate::new(x, 0).is_err());
        assert!(Coordinate::new(0, x).is_err());
    }
}

#[test]
fn try_apply_delta_moves_by_the_delta() {
    let c = Coordinate::new_unchecked(4, 4);
    assert_eq!(c.try_apply_delta((1, 2)), Ok(Coordinate::new_unchecked(5, 6)));
    assert_eq!(c.try_apply_delta((-4, -4)), Ok(Coordinate::new_unchecked(0, 0)));
    assert_eq!(c.try_apply_delta((3, 3)), Ok(Coordinate::new_unchecked(7, 7)));
    assert_eq!(c.try_apply_delta((0, 0)), Ok(c));
}

#[test]
fn try_apply_delta_fails_off_the_grid() {
    let corner = Coordinate::new_unchecked(0, 0);
    assert_eq!(corner.try_apply_delta((-1, 0)), Err(ChessError::OutOfBounds));
    assert_eq!(corner.try_apply_delta((0, -1)), Err(ChessError::OutOfBounds));
    let far = Coordinate::new_unchecked(7, 7);
    assert_eq!(far.try_apply_delta((1, 0)), Err(ChessError::OutOfBounds));
    assert_eq!(far.try_apply_delta((0, 1)), Err(ChessError::OutOfBounds));
    assert_eq!(far.try_apply_delta((127, 127)), Err(ChessError::OutOfBounds));
    assert_eq!(corner.try_apply_delta((-128, -128)), Err(ChessError::OutOfBounds));
    assert_eq!(far.try_apply_delta((-8, 0)), Err(ChessError::OutOfBounds));
    assert_eq!(far.try_apply_delta((-7, -7)), Ok(corner));
}

#[test]
fn apply_deltas_drops_what_leaves_the_grid() {
    let corner = Coordinate::new_unchecked(0, 0);
    let reached = corner.apply_deltas(&[(1, 2), (-1, 2), (2, 1), (2, -1), (0, 0)]);
    assert_eq!(
        reached,
        vec![
            Coordinate::new_unchecked(1, 2),
            Coordinate::new_unchecked(2, 1),
            Coordinate::new_unchecked(0, 0),
        ]
    );
}

#[test]
fn apply_deltas_keeps_the_order_and_repetitions() {
    let c = Coordinate::new_unchecked(3, 3);
    let reached = c.apply_deltas(&[(1, 0), (1, 0), (-1, 0)]);
    assert_eq!(
        reached,
        vec![
            Coordinate::new_unchecked(4, 3),
            Coordinate::new_unchecked(4, 3),
            Coordinate::new_unchecked(2, 3),
        ]
    );
    assert_eq!(c.apply_deltas(&[]), vec![]);
    assert_eq!(c.apply_deltas(&[(5, 0), (0, 5), (-4, 0), (0, -4)]), vec![]);
}

#[test]
fn opposite_swaps_the_sides() {
    assert_eq!(Colour::White.opposite(), Colour::Black);
    assert_eq!(Colour::Black.opposite(), Colour::White);
    assert_eq!(Colour::White.opposite().opposite(), Colour::White);
}

#[test]
fn sides_know_their_ranks() {
    assert_eq!(Colour::White.forward(), 1);
    assert_eq!(Colour::Black.forward(), -1);
    assert_eq!(Colour::White.pawn_rank(), 1);
    assert_eq!(Colour::Black.pawn_rank(), 6);
    assert_eq!(Colour::White.back_rank(), 0);
    assert_eq!(Colour::Black.back_rank(), 7);
}

#[test]
fn piece_builders_set_kind_and_side() {
    for colour in [Colour::White, Colour::Black] {
        assert_eq!(Piece::pawn(colour), Piece { piece_type: PieceType::Pawn, colour });
        assert_eq!(Piece::knight(colour), Piece { piece_type: PieceType::Knight, colour });
        assert_eq!(Piece::bishop(colour), Piece { piece_type: PieceType::Bishop, colour });
        assert_eq!(Piece::rook(colour), Piece { piece_type: PieceType::Rook, colour });
        assert_eq!(Piece::queen(colour), Piece { piece_type: PieceType::Queen, colour });
        assert_eq!(Piece::king(colour), Piece { piece_type: PieceType::King, colour });
        assert_eq!(Piece::new(PieceType::Queen, colour), Piece::queen(colour));
    }
}

#[test]
fn errors_describe_themselves() {
    assert_eq!(ChessError::OutOfBounds.message(), "Coordinates out of bounds");
    assert_eq!(ChessError::NoKing.message(), "No king found for the given colour");
    assert_eq!(
        ChessError::InvalidMove.message(),
        "The moving piece is not on its origin square"
    );
    assert_eq!(
        ChessError::WrongPiece(PieceMismatch::EmptySquare).message(),
        "No piece at the given position"
    );
    assert_eq!(
        ChessError::WrongPiece(PieceMismatch::WrongSide).message(),
        "The piece at the given position belongs to the side not to move"
    );
    let kinds = [
        (PieceType::Pawn, "Pawn"),
        (PieceType::Knight, "Knight"),
        (PieceType::Bishop, "Bishop"),
        (PieceType::Rook, "Rook"),
        (PieceType::Queen, "Queen"),
        (PieceType::King, "King"),
    ];
    for (kind, name) in kinds {
        assert_eq!(
            ChessError::WrongPiece(PieceMismatch::WrongKind(kind)).message(),
            format!("The piece at the given position is not a {}", name)
        );
        assert_eq!(
            PieceMismatch::WrongKind(kind).message(),
            format!("The piece at the given position is not a {}", name)
        );
    }
}
