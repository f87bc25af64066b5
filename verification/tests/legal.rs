use chess_core::board::Board;
use chess_core::coordinate::Coordinate;
use chess_core::error::ChessError;
use chess_core::moves::{CastlingRights, CastlingSide, Move};
use chess_core::piece::{Colour, Piece, PieceType};

fn at(x: u8, y: u8) -> Coordinate {
    Coordinate::new_unchecked(x, y)
}

fn find(moves: &[Move], from: Coordinate, to: Coordinate) -> Vec<Move> {
    moves.iter().copied().filter(|mv| mv.from == from && mv.to == to).collect()
}

fn play(board: &mut Board, from: Coordinate, to: Coordinate) -> Move {
    let moves = board.get_legal_moves().unwrap();
    let found = find(&moves, from, to);
    assert_eq!(found.len(), 1);
    board.make_move(found[0]).unwrap();
    found[0]
}

fn no_move_twice(moves: &[Move]) {
    for i in 0..moves.len() {
        for j in 0..i {
            assert_ne!(moves[i], moves[j]);
        }
    }
}

fn kings_only() -> Board {
    let mut board = Board::empty();
    board.set_square(at(4, 0), Some(Piece::king(Colour::White)));
    board.set_square(at(4, 7), Some(Piece::king(Colour::Black)));
    board
}

#[test]
fn starting_position_has_twenty_moves() {
    let board = Board::new();
    let moves = board.get_legal_moves().unwrap();
    assert_eq!(moves.len(), 20);
    no_move_twice(&moves);
    let pawns: Vec<&Move> =
        moves.iter().filter(|mv| mv.piece == Piece::pawn(Colour::White)).collect();
    let knights: Vec<&Move> =
        moves.iter().filter(|mv| mv.piece == Piece::knight(Colour::White)).collect();
    assert_eq!(pawns.len(), 16);
    assert_eq!(knights.len(), 4);
    assert_eq!(pawns.iter().filter(|mv| mv.to.y == 2).count(), 8);
    assert_eq!(pawns.iter().filter(|mv| mv.to.y == 3).count(), 8);
    for mv in &moves {
        assert_eq!(mv.captured, None);
        assert_eq!(mv.promotion, None);
        assert!(!mv.is_castling);
        assert!(!mv.is_en_passant);
    }
    for x in 0..8 {
        assert_eq!(find(&moves, at(x, 1), at(x, 2)).len(), 1);
        assert_eq!(find(&moves, at(x, 1), at(x, 3)).len(), 1);
    }
    assert_eq!(find(&moves, at(1, 0), at(0, 2)).len(), 1);
    assert_eq!(find(&moves, at(1, 0), at(2, 2)).len(), 1);
    assert_eq!(find(&moves, at(6, 0), at(5, 2)).len(), 1);
    assert_eq!(find(&moves, at(6, 0), at(7, 2)).len(), 1);
}

#[test]
fn black_has_twenty_replies() {
    let mut board = Board::new();
    play(&mut board, at(4, 1), at(4, 3));
    assert_eq!(board.turn(), Colour::Black);
    let moves = board.get_legal_moves().unwrap();
    assert_eq!(moves.len(), 20);
    for mv in &moves {
        assert_eq!(mv.piece.colour, Colour::Black);
    }
}

#[test]
fn pseudo_legal_moves_hold_the_legal_ones() {
    let mut board = kings_only();
    board.set_square(at(4, 1), Some(Piece::rook(Colour::White)));
    board.set_square(at(4, 6), Some(Piece::rook(Colour::Black)));
    let pseudo = board.pseudo_legal_moves();
    let legal = board.get_legal_moves().unwrap();
    no_move_twice(&pseudo);
    for mv in &legal {
        assert!(pseudo.contains(mv));
    }
    // The rook is pinned to its king: it may move along the file only.
    let rook_moves: Vec<&Move> =
        legal.iter().filter(|mv| mv.piece.piece_type == PieceType::Rook).collect();
    assert_eq!(rook_moves.len(), 5);
    for mv in rook_moves {
        assert_eq!(mv.to.x, 4);
    }
    assert_eq!(pseudo.iter().filter(|mv| mv.piece.piece_type == PieceType::Rook).count(), 12);
}

#[test]
fn legal_moves_fail_without_a_king() {
    let board = Board::empty();
    assert_eq!(board.get_legal_moves(), Err(ChessError::NoKing));
    assert_eq!(board.is_checkmate(), Err(ChessError::NoKing));
    assert_eq!(board.is_stalemate(), Err(ChessError::NoKing));
    let mut board = Board::empty();
    board.set_square(at(4, 7), Some(Piece::king(Colour::Black)));
    assert_eq!(board.get_legal_moves(), Err(ChessError::NoKing));
    board.set_turn(Colour::Black);
    assert_eq!(board.get_legal_moves().unwrap().len(), 5);
}

#[test]
fn king_does_not_step_into_check() {
    let mut board = kings_only();
    board.set_square(at(3, 7), Some(Piece::rook(Colour::Black)));
    let moves = board.get_legal_moves().unwrap();
    assert_eq!(moves.len(), 3);
    for mv in &moves {
        assert_ne!(mv.to.x, 3);
    }
}

#[test]
fn check_must_be_answered() {
    let mut board = kings_only();
    board.set_square(at(4, 5), Some(Piece::rook(Colour::Black)));
    board.set_square(at(0, 3), Some(Piece::rook(Colour::White)));
    assert_eq!(board.is_in_check(Colour::White), Ok(true));
    let moves = board.get_legal_moves().unwrap();
    // The king leaves the file, or the rook steps between.
    assert_eq!(find(&moves, at(0, 3), at(4, 3)).len(), 1);
    for mv in &moves {
        if mv.piece.piece_type == PieceType::Rook {
            assert_eq!(mv.to, at(4, 3));
        } else {
            assert_ne!(mv.to.x, 4);
        }
    }
    assert_eq!(moves.len(), 5);
}

#[test]
fn make_move_moves_the_piece() {
    let mut board = Board::new();
    let mv = play(&mut board, at(4, 1), at(4, 3));
    assert_eq!(mv, Move::new(Piece::pawn(Colour::White), at(4, 1), at(4, 3), None));
    assert_eq!(board.get_square(&at(4, 1)), None);
    assert_eq!(board.get_square(&at(4, 3)), Some(Piece::pawn(Colour::White)));
    assert_eq!(board.turn(), Colour::Black);
    assert_eq!(board.move_list(), &vec![mv]);
    assert_eq!(
        board.castling_rights(Colour::White),
        CastlingRights { kingside: true, queenside: true }
    );
}

#[test]
fn make_move_captures() {
    let mut board = kings_only();
    board.set_square(at(0, 0), Some(Piece::rook(Colour::White)));
    board.set_square(at(0, 5), Some(Piece::knight(Colour::Black)));
    let mv = play(&mut board, at(0, 0), at(0, 5));
    assert_eq!(mv.captured, Some(Piece::knight(Colour::Black)));
    assert_eq!(board.get_square(&at(0, 5)), Some(Piece::rook(Colour::White)));
    assert_eq!(board.get_square(&at(0, 0)), None);
}

#[test]
fn make_move_refuses_a_piece_that_is_not_there() {
    let mut board = Board::new();
    let before = board.clone();
    let mv = Move::new(Piece::knight(Colour::White), at(4, 4), at(5, 6), None);
    assert_eq!(board.make_move(mv), Err(ChessError::InvalidMove));
    assert_eq!(board, before);
    let other = Move::new(Piece::knight(Colour::White), at(0, 0), at(1, 2), None);
    assert_eq!(board.make_move(other), Err(ChessError::InvalidMove));
    assert_eq!(board, before);
}

#[test]
fn make_move_refuses_squares_off_the_grid() {
    let mut board = Board::new();
    let before = board.clone();
    let off = Coordinate { x: 8, y: 0 };
    let mv = Move::new(Piece::rook(Colour::White), at(0, 0), off, None);
    assert_eq!(board.make_move(mv), Err(ChessError::OutOfBounds));
    assert_eq!(board, before);
    let mv = Move::new(Piece::rook(Colour::White), off, at(0, 0), None);
    assert_eq!(board.make_move(mv), Err(ChessError::OutOfBounds));
    assert_eq!(board, before);
}

#[test]
fn move_and_inverse_restore_the_squares() {
    let mut board = Board::new();
    let before = board.clone();
    let mv = play(&mut board, at(6, 0), at(5, 2));
    let back = mv.inverse();
    assert_eq!(back, Move::new(Piece::knight(Colour::White), at(5, 2), at(6, 0), None));
    board.make_move(back).unwrap();
    assert_eq!(board.get_square(&at(6, 0)), before.get_square(&at(6, 0)));
    assert_eq!(board.get_square(&at(5, 2)), before.get_square(&at(5, 2)));
    for x in 0..8 {
        for y in 0..8 {
            assert_eq!(board.get_square(&at(x, y)), before.get_square(&at(x, y)));
        }
    }
    assert_eq!(board.turn(), before.turn());
    assert_eq!(board.move_list().len(), 2);
}

#[test]
fn slide_and_inverse_restore_the_squares() {
    let mut board = kings_only();
    board.set_square(at(0, 0), Some(Piece::rook(Colour::White)));
    let before = board.clone();
    let mv = play(&mut board, at(0, 0), at(0, 6));
    board.make_move(mv.inverse()).unwrap();
    assert_eq!(board.get_square(&at(0, 0)), Some(Piece::rook(Colour::White)));
    assert_eq!(board.get_square(&at(0, 6)), None);
    for x in 0..8 {
        for y in 0..8 {
            assert_eq!(board.get_square(&at(x, y)), before.get_square(&at(x, y)));
        }
    }
}

#[test]
fn en_passant_follows_a_double_step() {
    let mut board = kings_only();
    board.set_square(at(4, 4), Some(Piece::pawn(Colour::White)));
    board.set_square(at(3, 6), Some(Piece::pawn(Colour::Black)));
    board.set_turn(Colour::Black);
    let double = play(&mut board, at(3, 6), at(3, 4));
    assert!(double.is_double_step());
    assert_eq!(board.en_passant_target(&at(4, 4), Colour::White), Some(at(3, 5)));
    assert_eq!(board.pseudo_pawn_moves(&at(4, 4)), Ok(vec![at(4, 5), at(3, 5)]));
    let capture = play(&mut board, at(4, 4), at(3, 5));
    assert!(capture.is_en_passant);
    assert_eq!(capture.captured, Some(Piece::pawn(Colour::Black)));
    assert_eq!(capture.capture_square(), at(3, 4));
    assert_eq!(board.get_square(&at(3, 4)), None);
    assert_eq!(board.get_square(&at(4, 4)), None);
    assert_eq!(board.get_square(&at(3, 5)), Some(Piece::pawn(Colour::White)));
}

#[test]
fn en_passant_for_black() {
    let mut board = kings_only();
    board.set_square(at(2, 3), Some(Piece::pawn(Colour::Black)));
    board.set_square(at(3, 1), Some(Piece::pawn(Colour::White)));
    play(&mut board, at(3, 1), at(3, 3));
    assert_eq!(board.en_passant_target(&at(2, 3), Colour::Black), Some(at(3, 2)));
    let capture = play(&mut board, at(2, 3), at(3, 2));
    assert!(capture.is_en_passant);
    assert_eq!(board.get_square(&at(3, 3)), None);
    assert_eq!(board.get_square(&at(3, 2)), Some(Piece::pawn(Colour::Black)));
}

#[test]
fn en_passant_lapses_after_another_move() {
    let mut board = kings_only();
    board.set_square(at(4, 4), Some(Piece::pawn(Colour::White)));
    board.set_square(at(3, 6), Some(Piece::pawn(Colour::Black)));
    board.set_turn(Colour::Black);
    play(&mut board, at(3, 6), at(3, 4));
    play(&mut board, at(4, 0), at(4, 1));
    play(&mut board, at(4, 7), at(4, 6));
    assert_eq!(board.en_passant_target(&at(4, 4), Colour::White), None);
    assert_eq!(board.pseudo_pawn_moves(&at(4, 4)), Ok(vec![at(4, 5)]));
}

#[test]
fn en_passant_needs_a_double_step() {
    let mut board = kings_only();
    board.set_square(at(4, 4), Some(Piece::pawn(Colour::White)));
    board.set_square(at(3, 5), Some(Piece::pawn(Colour::Black)));
    board.set_turn(Colour::Black);
    play(&mut board, at(3, 5), at(3, 4));
    assert_eq!(board.en_passant_target(&at(4, 4), Colour::White), None);
    // Nor is a pawn two files away beside the one that advanced.
    let mut board = kings_only();
    board.set_square(at(5, 4), Some(Piece::pawn(Colour::White)));
    board.set_square(at(3, 6), Some(Piece::pawn(Colour::Black)));
    board.set_turn(Colour::Black);
    play(&mut board, at(3, 6), at(3, 4));
    assert_eq!(board.en_passant_target(&at(5, 4), Colour::White), None);
}

fn castling_board() -> Board {
    let mut board = kings_only();
    board.set_square(at(0, 0), Some(Piece::rook(Colour::White)));
    board.set_square(at(7, 0), Some(Piece::rook(Colour::White)));
    board.set_square(at(0, 7), Some(Piece::rook(Colour::Black)));
    board.set_square(at(7, 7), Some(Piece::rook(Colour::Black)));
    board.set_castling_rights(Colour::White, CastlingRights::default());
    board.set_castling_rights(Colour::Black, CastlingRights::default());
    board
}

#[test]
fn castling_is_offered_on_both_wings() {
    let board = castling_board();
    assert!(board.can_castle(Colour::White, CastlingSide::Kingside));
    assert!(board.can_castle(Colour::White, CastlingSide::Queenside));
    assert!(board.can_castle(Colour::Black, CastlingSide::Kingside));
    assert!(board.can_castle(Colour::Black, CastlingSide::Queenside));
    let castlings = board.castling_moves();
    assert_eq!(
        castlings,
        vec![
            Board::castling_move(Colour::White, CastlingSide::Kingside),
            Board::castling_move(Colour::White, CastlingSide::Queenside),
        ]
    );
    let moves = board.get_legal_moves().unwrap();
    let short = find(&moves, at(4, 0), at(6, 0));
    let long = find(&moves, at(4, 0), at(2, 0));
    assert_eq!(short.len(), 1);
    assert_eq!(long.len(), 1);
    assert!(short[0].is_castling);
    assert!(long[0].is_castling);
    assert_eq!(short[0].castling_side(), CastlingSide::Kingside);
    assert_eq!(long[0].castling_side(), CastlingSide::Queenside);
    // The king's five steps, two castlings, and the rooks' moves.
    assert_eq!(moves.iter().filter(|mv| mv.piece.piece_type == PieceType::King).count(), 7);
}

#[test]
fn castling_kingside_moves_king_and_rook() {
    let mut board = castling_board();
    play(&mut board, at(4, 0), at(6, 0));
    assert_eq!(board.get_square(&at(6, 0)), Some(Piece::king(Colour::White)));
    assert_eq!(board.get_square(&at(5, 0)), Some(Piece::rook(Colour::White)));
    assert_eq!(board.get_square(&at(4, 0)), None);
    assert_eq!(board.get_square(&at(7, 0)), None);
    assert_eq!(board.get_square(&at(0, 0)), Some(Piece::rook(Colour::White)));
    assert_eq!(
        board.castling_rights(Colour::White),
        CastlingRights { kingside: false, queenside: false }
    );
    assert_eq!(
        board.castling_rights(Colour::Black),
        CastlingRights { kingside: true, queenside: true }
    );
    assert_eq!(board.turn(), Colour::Black);
}

#[test]
fn castling_queenside_moves_king_and_rook() {
    let mut board = castling_board();
    board.set_turn(Colour::Black);
    play(&mut board, at(4, 7), at(2, 7));
    assert_eq!(board.get_square(&at(2, 7)), Some(Piece::king(Colour::Black)));
    assert_eq!(board.get_square(&at(3, 7)), Some(Piece::rook(Colour::Black)));
    assert_eq!(board.get_square(&at(4, 7)), None);
    assert_eq!(board.get_square(&at(0, 7)), None);
    assert_eq!(board.get_square(&at(7, 7)), Some(Piece::rook(Colour::Black)));
    assert_eq!(
        board.castling_rights(Colour::Black),
        CastlingRights { kingside: false, queenside: false }
    );
}

#[test]
fn castling_needs_the_right() {
    let mut board = castling_board();
    board.set_castling_rights(Colour::White, CastlingRights { kingside: false, queenside: true });
    assert!(!board.can_castle(Colour::White, CastlingSide::Kingside));
    assert!(board.can_castle(Colour::White, CastlingSide::Queenside));
    let board = kings_only();
    assert!(!board.can_castle(Colour::White, CastlingSide::Kingside));
    assert!(board.castling_moves().is_empty());
}

#[test]
fn castling_needs_empty_squares_between() {
    let mut board = castling_board();
    board.set_square(at(1, 0), Some(Piece::knight(Colour::White)));
    assert!(!board.can_castle(Colour::White, CastlingSide::Queenside));
    assert!(board.can_castle(Colour::White, CastlingSide::Kingside));
    board.set_square(at(6, 0), Some(Piece::knight(Colour::Black)));
    assert!(!board.can_castle(Colour::White, CastlingSide::Kingside));
}

#[test]
fn castling_needs_king_and_rook_at_home() {
    let mut board = castling_board();
    board.set_square(at(7, 0), None);
    assert!(!board.can_castle(Colour::White, CastlingSide::Kingside));
    board.set_square(at(7, 0), Some(Piece::rook(Colour::Black)));
    assert!(!board.can_castle(Colour::White, CastlingSide::Kingside));
    let mut board = castling_board();
    board.set_square(at(4, 0), None);
    board.set_square(at(3, 0), Some(Piece::king(Colour::White)));
    assert!(!board.can_castle(Colour::White, CastlingSide::Kingside));
    assert!(!board.can_castle(Colour::White, CastlingSide::Queenside));
}

#[test]
fn castling_not_out_of_through_or_into_check() {
    // Out of check.
    let mut board = castling_board();
    board.set_square(at(4, 4), Some(Piece::rook(Colour::Black)));
    assert!(!board.can_castle(Colour::White, CastlingSide::Kingside));
    assert!(!board.can_castle(Colour::White, CastlingSide::Queenside));
    // Through an attacked square.
    let mut board = castling_board();
    board.set_square(at(5, 4), Some(Piece::rook(Colour::Black)));
    assert!(!board.can_castle(Colour::White, CastlingSide::Kingside));
    assert!(board.can_castle(Colour::White, CastlingSide::Queenside));
    // Onto an attacked square.
    let mut board = castling_board();
    board.set_square(at(2, 4), Some(Piece::rook(Colour::Black)));
    assert!(board.can_castle(Colour::White, CastlingSide::Kingside));
    assert!(!board.can_castle(Colour::White, CastlingSide::Queenside));
    // The rook may pass an attacked square.
    let mut board = castling_board();
    board.set_square(at(1, 4), Some(Piece::rook(Colour::Black)));
    assert!(board.can_castle(Colour::White, CastlingSide::Queenside));
    // A pawn attacks the squares diagonally ahead of it, empty as they are.
    let mut board = castling_board();
    board.set_square(at(6, 1), Some(Piece::pawn(Colour::Black)));
    assert!(!board.can_castle(Colour::White, CastlingSide::Kingside));
    assert!(board.can_castle(Colour::White, CastlingSide::Queenside));
}

#[test]
fn rook_move_costs_the_right_on_its_wing() {
    let mut board = castling_board();
    play(&mut board, at(7, 0), at(7, 3));
    assert_eq!(
        board.castling_rights(Colour::White),
        CastlingRights { kingside: false, queenside: true }
    );
    play(&mut board, at(0, 7), at(0, 3));
    assert_eq!(
        board.castling_rights(Colour::Black),
        CastlingRights { kingside: true, queenside: false }
    );
    play(&mut board, at(7, 3), at(7, 0));
    assert!(!board.can_castle(Colour::White, CastlingSide::Kingside));
    assert_eq!(
        board.castling_rights(Colour::White),
        CastlingRights { kingside: false, queenside: true }
    );
}

#[test]
fn king_move_costs_both_rights() {
    let mut board = castling_board();
    play(&mut board, at(4, 0), at(4, 1));
    assert_eq!(
        board.castling_rights(Colour::White),
        CastlingRights { kingside: false, queenside: false }
    );
    assert_eq!(
        board.castling_rights(Colour::Black),
        CastlingRights { kingside: true, queenside: true }
    );
}

#[test]
fn pawn_is_promoted_on_the_last_rank() {
    let mut board = kings_only();
    board.set_square(at(0, 6), Some(Piece::pawn(Colour::White)));
    board.set_square(at(1, 7), Some(Piece::knight(Colour::Black)));
    let moves = board.get_legal_moves().unwrap();
    let ahead = find(&moves, at(0, 6), at(0, 7));
    let taking = find(&moves, at(0, 6), at(1, 7));
    assert_eq!(ahead.len(), 4);
    assert_eq!(taking.len(), 4);
    for kind in [PieceType::Queen, PieceType::Rook, PieceType::Bishop, PieceType::Knight] {
        let promoted = Some(Piece::new(kind, Colour::White));
        assert_eq!(ahead.iter().filter(|mv| mv.promotion == promoted).count(), 1);
        assert_eq!(taking.iter().filter(|mv| mv.promotion == promoted).count(), 1);
    }
    for mv in &taking {
        assert_eq!(mv.captured, Some(Piece::knight(Colour::Black)));
    }
    let queening = ahead
        .iter()
        .copied()
        .find(|mv| mv.promotion == Some(Piece::queen(Colour::White)))
        .unwrap();
    assert_eq!(queening.arriving(), Piece::queen(Colour::White));
    board.make_move(queening).unwrap();
    assert_eq!(board.get_square(&at(0, 7)), Some(Piece::queen(Colour::White)));
    assert_eq!(board.get_square(&at(0, 6)), None);
}

#[test]
fn moves_to_records_one_move_or_four() {
    let board = kings_only();
    let pawn = Piece::pawn(Colour::Black);
    assert_eq!(board.moves_to(pawn, at(3, 1), at(3, 0)).len(), 4);
    assert_eq!(
        board.moves_to(pawn, at(3, 2), at(3, 1)),
        vec![Move::new(pawn, at(3, 2), at(3, 1), None)]
    );
    let rook = Piece::rook(Colour::Black);
    assert_eq!(
        board.moves_to(rook, at(3, 1), at(3, 0)),
        vec![Move::new(rook, at(3, 1), at(3, 0), None)]
    );
    assert_eq!(
        board.record_move(rook, at(4, 1), at(4, 0), None),
        Move::new(rook, at(4, 1), at(4, 0), Some(Piece::king(Colour::White)))
    );
}

#[test]
fn moves_from_an_empty_or_opposing_square_are_none() {
    let board = Board::new();
    assert!(board.moves_from(&at(4, 4)).is_empty());
    assert!(board.moves_from(&at(4, 6)).is_empty());
    assert_eq!(board.moves_from(&at(4, 1)).len(), 2);
}

#[test]
fn fools_mate_is_checkmate() {
    let mut board = Board::new();
    play(&mut board, at(5, 1), at(5, 2));
    play(&mut board, at(4, 6), at(4, 4));
    play(&mut board, at(6, 1), at(6, 3));
    assert_eq!(board.is_checkmate(), Ok(false));
    play(&mut board, at(3, 7), at(7, 3));
    assert_eq!(board.is_in_check(Colour::White), Ok(true));
    assert_eq!(board.get_legal_moves(), Ok(vec![]));
    assert_eq!(board.is_checkmate(), Ok(true));
    assert_eq!(board.is_stalemate(), Ok(false));
    assert!(!board.is_board_legal() || board.is_in_check(Colour::Black) == Ok(false));
}

#[test]
fn cornered_king_is_stalemated() {
    let mut board = Board::empty();
    board.set_square(at(7, 7), Some(Piece::king(Colour::Black)));
    board.set_square(at(5, 6), Some(Piece::king(Colour::White)));
    board.set_square(at(6, 5), Some(Piece::queen(Colour::White)));
    board.set_turn(Colour::Black);
    assert_eq!(board.is_in_check(Colour::Black), Ok(false));
    assert_eq!(board.get_legal_moves(), Ok(vec![]));
    assert_eq!(board.is_stalemate(), Ok(true));
    assert_eq!(board.is_checkmate(), Ok(false));
}

#[test]
fn starting_position_is_neither_mate_nor_stalemate() {
    let board = Board::new();
    assert_eq!(board.is_checkmate(), Ok(false));
    assert_eq!(board.is_stalemate(), Ok(false));
}

#[test]
fn board_legality_wants_one_king_each() {
    assert!(Board::new().is_board_legal());
    assert!(!Board::empty().is_board_legal());
    assert!(kings_only().is_board_legal());
    let mut board = kings_only();
    board.set_square(at(0, 0), Some(Piece::king(Colour::White)));
    assert!(!board.is_board_legal());
    assert!(!board.has_one_king(Colour::White));
    assert!(board.has_one_king(Colour::Black));
    let mut board = kings_only();
    board.set_square(at(4, 7), None);
    assert!(!board.is_board_legal());
    assert!(!board.has_one_king(Colour::Black));
}

#[test]
fn board_legality_wants_the_side_not_to_move_out_of_check() {
    let mut board = kings_only();
    board.set_square(at(4, 3), Some(Piece::rook(Colour::White)));
    assert_eq!(board.is_in_check(Colour::Black), Ok(true));
    // White to move while Black's king is attacked: this cannot arise.
    assert!(!board.is_board_legal());
    board.set_turn(Colour::Black);
    assert!(board.is_board_legal());
}

#[test]
fn find_king_takes_the_last_of_several() {
    let mut board = Board::empty();
    assert_eq!(board.find_king(Colour::White), None);
    board.set_square(at(2, 2), Some(Piece::king(Colour::White)));
    assert_eq!(board.find_king(Colour::White), Some(at(2, 2)));
    board.set_square(at(1, 5), Some(Piece::king(Colour::White)));
    assert_eq!(board.find_king(Colour::White), Some(at(1, 5)));
    board.set_square(at(7, 2), Some(Piece::king(Colour::White)));
    assert_eq!(board.find_king(Colour::White), Some(at(1, 5)));
    assert_eq!(board.find_king(Colour::Black), None);
    // Check is told of the king found last.
    board.set_square(at(2, 7), Some(Piece::rook(Colour::Black)));
    assert_eq!(board.is_in_check(Colour::White), Ok(false));
    board.set_square(at(1, 7), Some(Piece::rook(Colour::Black)));
    assert_eq!(board.is_in_check(Colour::White), Ok(true));
}

#[test]
fn attacks_of_a_pawn_are_its_diagonals() {
    let mut board = Board::empty();
    board.set_square(at(4, 4), Some(Piece::pawn(Colour::White)));
    assert!(board.attacks(&at(4, 4), &at(3, 5)));
    assert!(board.attacks(&at(4, 4), &at(5, 5)));
    assert!(!board.attacks(&at(4, 4), &at(4, 5)));
    assert!(!board.attacks(&at(4, 4), &at(3, 3)));
    assert!(!board.attacks(&at(0, 0), &at(1, 1)));
    assert!(board.is_attacked_by(&at(3, 5), Colour::White));
    assert!(!board.is_attacked_by(&at(3, 5), Colour::Black));
    assert!(!board.is_attacked_by(&at(4, 5), Colour::White));
}
