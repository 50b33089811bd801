use chess_engine::board_state::BoardState;
use chess_engine::chess_move::MoveType;
use chess_engine::engine::{calculate_best_move, Search};
use chess_engine::piece::PieceType;

#[test]
fn takes_queen() {
    let board_state_fen: &str = "k7/6q1/5P2/8/8/8/8/K7 w - - 0 1";
    let mut board_state: BoardState =
        BoardState::new(board_state_fen).unwrap_or_else(|_e| panic!("Error creating board state"));
    let best_move = calculate_best_move(&board_state, 5).move_found.unwrap();
    board_state.make_move(&best_move);

    match best_move.piece_captured {
        Some(piece) => {
            if piece.piece_type == PieceType::Queen {
                assert!(true);
            } else {
                panic!("Queen should have been captured!");
            }
        }
        None => {
            panic!("Something should have been captured.")
        }
    }
}

#[test]
fn takes_queen_over_rook() {
    let board_state_fen: &str = "k7/4r1q1/5P2/8/8/8/8/K7 w - - 0 1";
    let mut board_state: BoardState =
        BoardState::new(board_state_fen).unwrap_or_else(|_e| panic!("Error creating board state"));
    let best_move = calculate_best_move(&board_state, 5).move_found.unwrap();
    println!("{:?}", best_move);
    board_state.make_move(&best_move);

    match best_move.piece_captured {
        Some(piece) => {
            if piece.piece_type == PieceType::Queen {
                assert!(true);
            } else {
                panic!("Queen should have been captured!");
            }
        }
        None => {
            panic!("Something should have been captured.")
        }
    }
}

#[test]
fn finds_mate() {
    let board_state_fen: &str = "rnbqkbnr/ppppp2p/5p2/6p1/3PP3/8/PPP2PPP/RNBQKBNR w KQkq d4 0 1";
    let mut board_state: BoardState =
        BoardState::new(board_state_fen).unwrap_or_else(|_e| panic!("Error creating board state"));
    let best_move = calculate_best_move(&board_state, 5).move_found.unwrap();
    println!("{:?}", best_move);
    board_state.make_move(&best_move);

    match best_move.move_type {
        MoveType::Standard(std_move) => {
            if std_move.piece_moved.piece_type != PieceType::Queen {
                panic!("Queen should have been moved!");
            } else {
                assert!(std_move.after.row == 5 && std_move.after.col == 9);
            }
        }
        _ => {
            panic!("Should have moved Queen in for Checkmate")
        }
    }
}

#[test]
fn search_bookkeeping() {
    let mut search = Search::new();
    assert_eq!(search.nodes_searched, 0);
    search.increment_nodes_searched();
    search.increment_nodes_searched();
    assert_eq!(search.nodes_searched, 2);
    search.reset_search();
    assert_eq!(search.nodes_searched, 0);
}

// The engine never resigns a playable position and never plays into its own
// king: whatever it returns is one of the position's legal moves.
#[test]
fn engine_returns_a_legal_move() {
    let board = BoardState::new("k7/8/8/8/8/8/8/K6R w - - 0 1").unwrap();
    let result = calculate_best_move(&board, 1);
    let mv = result.move_found.expect("a playable position yields a move");
    let moves = chess_engine::move_gen::gen_all_moves(&board, board.active_color);
    assert!(moves.iter().any(|m| *m == mv));
}

// A checkmated side has no move to report.
#[test]
fn engine_reports_no_move_when_mated() {
    let fen = "rnb1kbnr/pppp1ppp/8/4p3/6Pq/5P2/PPPPP2P/RNBQKBNR w KQkq - 0 3";
    let board = BoardState::new(fen).unwrap();
    let result = calculate_best_move(&board, 1);
    assert!(result.move_found.is_none());
}
