use chess_engine::board_state::BoardState;
use chess_engine::chess_move::MoveType;
use chess_engine::color::Color;
use chess_engine::move_gen::gen_all_moves;
use chess_engine::move_parser::{handle_castle_move, parse_move};

#[test]
fn test_standard_position_white_moves() {
    let board_state =
        BoardState::new("rnbqkbnr/pppppppp/8/8/8/8/PPPPPPPP/RNBQKBNR w KQkq - 0 1").unwrap();
    let _moves = gen_all_moves(&board_state, Color::White);

    let moves_string: Vec<String> = vec![
        String::from("a3"),
        String::from("a4"),
        String::from("b3"),
        String::from("b4"),
        String::from("c3"),
        String::from("c4"),
        String::from("d3"),
        String::from("d4"),
        String::from("e3"),
        String::from("e4"),
        String::from("f3"),
        String::from("f4"),
        String::from("g3"),
        String::from("g4"),
        String::from("h3"),
        String::from("h4"),
        String::from("Na3"),
        String::from("Nc3"),
        String::from("Nf3"),
        String::from("Nh3"),
    ];

    for mv_string in moves_string {
        let result = parse_move(&mv_string, &board_state);
        if result.is_err() {
            println!(
                "Error: {} when trying to parse move: {}",
                result.unwrap_err(),
                mv_string
            );
            panic!("move should have parsed");
        }
        assert!(result.is_ok());
    }
}

#[test]
fn test_standard_position_black_moves() {
    let board_state =
        BoardState::new("rnbqkbnr/pppppppp/8/8/8/8/PPPPPPPP/RNBQKBNR b KQkq - 0 1").unwrap();
    let _moves = gen_all_moves(&board_state, Color::Black);

    let moves_string: Vec<String> = vec![
        String::from("a5"),
        String::from("a6"),
        String::from("b5"),
        String::from("b6"),
        String::from("c5"),
        String::from("c6"),
        String::from("d5"),
        String::from("d6"),
        String::from("e5"),
        String::from("e6"),
        String::from("f5"),
        String::from("f6"),
        String::from("g5"),
        String::from("g6"),
        String::from("h5"),
        String::from("h6"),
        String::from("Na6"),
        String::from("Nc6"),
        String::from("Nf6"),
        String::from("Nh6"),
    ];

    for mv_string in moves_string {
        let result = parse_move(&mv_string, &board_state);
        if result.is_err() {
            println!(
                "Error: {} when trying to parse move: {}",
                result.unwrap_err(),
                mv_string
            );
            panic!("move should have parsed");
        }
        assert!(result.is_ok());
    }
}

#[test]
fn test_promotion() {
    let board_state = BoardState::new("8/3P4/8/8/8/8/8/1k2K3 w - - 0 1").unwrap();
    let _moves = gen_all_moves(&board_state, Color::White);

    let moves_string: Vec<String> = vec![
        String::from("d8=Q"),
        String::from("d8=B"),
        String::from("d8=R"),
        String::from("d8=N"),
    ];

    for mv_string in moves_string {
        let result = parse_move(&mv_string, &board_state);
        if result.is_err() {
            println!(
                "Error: {} when trying to parse move: {}",
                result.unwrap_err(),
                mv_string
            );
            panic!("move should have parsed");
        }
        assert!(result.is_ok());
    }

    // Testing that invalid promotions are caught
    assert!(parse_move(&String::from("d8=K"), &board_state).is_err());
}

#[test]
fn test_enpassant() {}

#[test]
fn parser_error_cases() {
    let board =
        BoardState::new("rnbqkbnr/pppppppp/8/8/8/8/PPPPPPPP/RNBQKBNR w KQkq - 0 1").unwrap();
    // An illegal destination parses but matches no legal move.
    assert!(parse_move("e5", &board).is_err());
    // Stray characters are rejected.
    assert!(parse_move("e4!", &board).is_err());
    // A lone piece letter misses its destination.
    assert!(parse_move("N", &board).is_err());
    // An empty request names nothing.
    assert!(parse_move("", &board).is_err());
    // A capture mark with nothing to capture is refused.
    assert!(parse_move("exd3", &board).is_err());
}

#[test]
fn parser_capture_and_check_marks() {
    // A knight capture with a check mark parses to the capturing move.
    let board = BoardState::new("k7/8/8/3p4/8/4N3/8/K7 w - - 0 1").unwrap();
    let result = parse_move("Nxd5+", &board).unwrap();
    match result.move_type {
        MoveType::Standard(s) => {
            assert_eq!(s.piece_moved.piece_type, chess_engine::piece::PieceType::Knight);
            assert_eq!(s.after, chess_engine::chess_move::Position { row: 5, col: 5 });
        }
        _ => panic!("expected a standard capture"),
    }
    assert!(result.piece_captured.is_some());
}

#[test]
fn ambiguous_move_is_refused() {
    // Two knights reach c3; without an origin rank the request is ambiguous.
    let board = BoardState::new("k7/8/8/8/8/8/8/KN1N4 w - - 0 1").unwrap();
    assert!(parse_move("Nc3", &board).is_err());
}

#[test]
fn castle_requests_resolve_against_the_move_list() {
    let board = BoardState::new("r3k2r/8/8/8/8/8/8/R3K2R w KQkq - 0 1").unwrap();
    let moves = gen_all_moves(&board, Color::White);
    let kingside = handle_castle_move("0-0", Color::White, moves.clone()).unwrap();
    match kingside.move_type {
        MoveType::Castle(c) => assert!(c.is_kingside),
        _ => panic!("expected a castle move"),
    }
    let queenside = handle_castle_move("0-0-0", Color::White, moves.clone()).unwrap();
    match queenside.move_type {
        MoveType::Castle(c) => assert!(!c.is_kingside),
        _ => panic!("expected a castle move"),
    }
    // With the castles unavailable the request is refused.
    let blocked = BoardState::new("4k3/8/8/8/8/8/8/4K3 w - - 0 1").unwrap();
    let no_moves = gen_all_moves(&blocked, Color::White);
    assert!(handle_castle_move("0-0", Color::White, no_moves).is_err());
}
