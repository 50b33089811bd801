use chess_engine::board_state::BoardState;
use chess_engine::chess_move::{standard, MoveType, Position};
use chess_engine::color::Color;
use chess_engine::move_gen::{gen_all_moves, game_outcome, Outcome};
use chess_engine::piece::{Piece, PieceType};

const INITIAL: &str = "rnbqkbnr/pppppppp/8/8/8/8/PPPPPPPP/RNBQKBNR w KQkq - - -";

#[test]
fn sanity_check() {
    let board_state_fen = "rnbqkbnr/pppppppp/8/8/8/8/PPPPPPPP/RNBQKBNR w KQkq - - -";
    let board_state: Result<BoardState, &str> = BoardState::new(board_state_fen);
    match board_state {
        Ok(_) => {
            let _board = board_state.unwrap();
        }
        Err(e) => panic!("Error: {}", e),
    }
}

#[test]
fn sanity_check2() {
    let board_state_fen = "rnbqkbnr/pppppppp/8/8/8/8/PPPPPPPP/RNBQKBNR w KQkq - - -";
    let board_state: Result<BoardState, &str> = BoardState::new(board_state_fen);
    match board_state {
        Ok(_) => {
            let _board = board_state.unwrap();
        }
        Err(e) => panic!("Error: {}", e),
    }
}

#[test]
fn rejects_malformed_fen() {
    // Too few fields.
    assert!(BoardState::new("rnbqkbnr/pppppppp/8/8/8/8/PPPPPPPP/RNBQKBNR w KQkq").is_err());
    // Bad piece letter.
    assert!(BoardState::new("rnbqkbnz/pppppppp/8/8/8/8/PPPPPPPP/RNBQKBNR w KQkq - 0 1").is_err());
    // Bad side to move.
    assert!(BoardState::new("rnbqkbnr/pppppppp/8/8/8/8/PPPPPPPP/RNBQKBNR x KQkq - 0 1").is_err());
    // Bad castling letter.
    assert!(BoardState::new("rnbqkbnr/pppppppp/8/8/8/8/PPPPPPPP/RNBQKBNR w Xkq - 0 1").is_err());
    // Bad en-passant square.
    assert!(BoardState::new("rnbqkbnr/pppppppp/8/8/8/8/PPPPPPPP/RNBQKBNR w KQkq z9 0 1").is_err());
    // Too few rows.
    assert!(BoardState::new("rnbqkbnr/pppppppp/8/8/8/8/PPPPPPPP w KQkq - 0 1").is_err());
    // A row wider than the board.
    assert!(BoardState::new("rnbqkbnrr/pppppppp/8/8/8/8/PPPPPPPP/RNBQKBNR w KQkq - 0 1").is_err());
    // No white king.
    assert!(BoardState::new("rnbqkbnr/pppppppp/8/8/8/8/PPPPPPPP/RNBQ1BNR w KQkq - 0 1").is_err());
    // Two black kings.
    assert!(BoardState::new("rnbqkknr/pppppppp/8/8/8/8/PPPPPPPP/RNBQKBNR w KQkq - 0 1").is_err());
    // A pawn on its own back rank.
    assert!(BoardState::new("Pnbqkbnr/pppppppp/8/8/8/8/PPPPPPPP/RNBQKBNR w KQkq - 0 1").is_err());
}

#[test]
fn initial_position_is_well_formed() {
    let board = BoardState::new(INITIAL).unwrap();
    assert!(board.is_well_formed());
    assert_eq!(board.active_color, Color::White);
    assert!(board.castle_rights.can_castle_white_kingside);
    assert!(board.castle_rights.can_castle_black_queenside);
    assert_eq!(board.en_passant, None);
    assert_eq!(
        board.piece_on(9, 6),
        Some(Piece { piece_type: PieceType::King, color: Color::White })
    );
    assert_eq!(
        board.piece_on(2, 5),
        Some(Piece { piece_type: PieceType::Queen, color: Color::Black })
    );
    assert_eq!(board.piece_on(5, 5), None);
}

#[test]
fn make_move_relocates_the_piece() {
    let mut board = BoardState::new(INITIAL).unwrap();
    let pawn = Piece { piece_type: PieceType::Pawn, color: Color::White };
    let mv = standard(Position { row: 8, col: 6 }, Position { row: 6, col: 6 }, pawn, None);
    board.make_move(&mv);
    assert_eq!(board.piece_on(8, 6), None);
    assert_eq!(board.piece_on(6, 6), Some(pawn));
    assert_eq!(board.active_color, Color::Black);
    assert_eq!(board.last_move, Some(mv));
}

// The en-passant window: a double push records the skipped square, the
// capture is offered exactly once, and any other reply closes the window.
#[test]
fn en_passant_window_scenario() {
    let fen = "k7/8/8/8/3p4/8/4P3/K7 w - - 0 1";
    let mut board = BoardState::new(fen).unwrap();
    let pawn = Piece { piece_type: PieceType::Pawn, color: Color::White };
    // The double push e2-e4 skips e3.
    let double_push = standard(Position { row: 8, col: 6 }, Position { row: 6, col: 6 }, pawn, None);
    board.make_move(&double_push);
    assert_eq!(board.en_passant, Some(Position { row: 7, col: 6 }));

    // Black's reply list offers the en-passant capture d4xe3.
    let moves = gen_all_moves(&board, Color::Black);
    let mut found_ep = false;
    for mv in &moves {
        if let MoveType::EnPassant(e) = mv.move_type {
            assert_eq!(e.before, Position { row: 6, col: 5 });
            assert_eq!(e.after, Position { row: 7, col: 6 });
            assert_eq!(e.en_passant_pos, Position { row: 6, col: 6 });
            found_ep = true;
        }
    }
    assert!(found_ep);

    // After any other reply the window is closed.
    let black_king = Piece { piece_type: PieceType::King, color: Color::Black };
    let other = standard(Position { row: 2, col: 2 }, Position { row: 3, col: 2 }, black_king, None);
    board.make_move(&other);
    assert_eq!(board.en_passant, None);
    let white_quiet = standard(
        Position { row: 9, col: 2 },
        Position { row: 9, col: 3 },
        Piece { piece_type: PieceType::King, color: Color::White },
        None,
    );
    board.make_move(&white_quiet);
    let later = gen_all_moves(&board, Color::Black);
    for mv in &later {
        assert!(!matches!(mv.move_type, MoveType::EnPassant(_)));
    }
}

// The castling round trip: with clear paths and rights intact both castle
// moves are offered, and applying one forfeits both flags for that color.
#[test]
fn castling_round_trip_scenario() {
    let fen = "r3k2r/8/8/8/8/8/8/R3K2R w KQkq - 0 1";
    let board = BoardState::new(fen).unwrap();
    let moves = gen_all_moves(&board, Color::White);
    let mut kingside = None;
    let mut queenside = None;
    for mv in &moves {
        if let MoveType::Castle(c) = mv.move_type {
            assert_eq!(c.color, Color::White);
            if c.is_kingside {
                kingside = Some(*mv);
            } else {
                queenside = Some(*mv);
            }
        }
    }
    let kingside = kingside.expect("kingside castle should be offered");
    assert!(queenside.is_some());

    let mut after = board;
    after.make_move(&kingside);
    assert!(!after.castle_rights.can_castle_white_kingside);
    assert!(!after.castle_rights.can_castle_white_queenside);
    assert!(after.castle_rights.can_castle_black_kingside);
    assert!(after.castle_rights.can_castle_black_queenside);
    assert_eq!(
        after.piece_on(9, 8),
        Some(Piece { piece_type: PieceType::King, color: Color::White })
    );
    assert_eq!(
        after.piece_on(9, 7),
        Some(Piece { piece_type: PieceType::Rook, color: Color::White })
    );
    assert_eq!(after.piece_on(9, 6), None);
    assert_eq!(after.piece_on(9, 9), None);
}

// A rook captured on its home square takes its castling flag with it, also
// when the capture is a promotion.
#[test]
fn promotion_capture_forfeits_castling() {
    let fen = "r3k3/1P6/8/8/8/8/8/4K3 w q - 0 1";
    let mut board = BoardState::new(fen).unwrap();
    assert!(board.castle_rights.can_castle_black_queenside);
    let moves = gen_all_moves(&board, Color::White);
    let mut promo_capture = None;
    for mv in &moves {
        if let MoveType::Promotion(p) = mv.move_type {
            if p.after == (Position { row: 2, col: 2 })
                && p.promote_to.piece_type == PieceType::Queen
            {
                promo_capture = Some(*mv);
            }
        }
    }
    let promo_capture = promo_capture.expect("bxa8=Q should be offered");
    board.make_move(&promo_capture);
    assert!(!board.castle_rights.can_castle_black_queenside);
}

// A position one move past saving: no legal move is left while the king is
// attacked, and the outcome reads as checkmate, not stalemate.
#[test]
fn checkmate_terminal_scenario() {
    let fen = "rnb1kbnr/pppp1ppp/8/4p3/6Pq/5P2/PPPPP2P/RNBQKBNR w KQkq - 0 3";
    let board = BoardState::new(fen).unwrap();
    let moves = gen_all_moves(&board, Color::White);
    assert_eq!(moves.len(), 0);
    assert!(board.is_in_check(Color::White, None));
    match game_outcome(&board) {
        Outcome::Checkmate(winner) => assert_eq!(winner, Color::Black),
        _ => panic!("the position is checkmate"),
    }
}

#[test]
fn stalemate_terminal_scenario() {
    let fen = "7k/5Q2/6K1/8/8/8/8/8 b - - 0 1";
    let board = BoardState::new(fen).unwrap();
    let moves = gen_all_moves(&board, Color::Black);
    assert_eq!(moves.len(), 0);
    assert!(!board.is_in_check(Color::Black, None));
    match game_outcome(&board) {
        Outcome::Stalemate => {}
        _ => panic!("the position is stalemate"),
    }
}

#[test]
fn is_in_check_sees_each_attacker_kind() {
    // A rook gives check along a file.
    let rook = BoardState::new("4r3/8/8/8/8/8/8/k3K3 w - - 0 1").unwrap();
    assert!(rook.is_in_check(Color::White, None));
    // A bishop along a diagonal.
    let bishop = BoardState::new("8/8/8/b7/8/8/8/k3K3 w - - 0 1").unwrap();
    assert!(bishop.is_in_check(Color::White, None));
    // A knight from its offset.
    let knight = BoardState::new("8/8/8/8/8/3n4/8/k3K3 w - - 0 1").unwrap();
    assert!(knight.is_in_check(Color::White, None));
    // A pawn from its forward diagonal.
    let pawn = BoardState::new("8/8/8/8/8/8/5p2/k3K3 w - - 0 1").unwrap();
    assert!(pawn.is_in_check(Color::White, None));
    // A blocked ray gives no check.
    let blocked = BoardState::new("4r3/8/4P3/8/8/8/8/k3K3 w - - 0 1").unwrap();
    assert!(!blocked.is_in_check(Color::White, None));
}

// Two lone kings still have moves: the position is ongoing (the game is a
// dead draw by material, but the move list is the full legal list).
#[test]
fn bare_kings_still_move() {
    let board = BoardState::new("k7/8/8/8/8/8/8/7K w - - 0 1").unwrap();
    let moves = gen_all_moves(&board, Color::White);
    assert!(moves.len() > 0);
    match game_outcome(&board) {
        Outcome::Ongoing(ms) => assert_eq!(ms.len(), moves.len()),
        _ => panic!("bare kings can still move"),
    }
}
