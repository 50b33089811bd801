use chess_engine::board_state::BoardState;
use chess_engine::evaluation::evaluate;

#[test]
fn test_standard_eval() {
    let board_state_fen = "rnbqkbnr/pppppppp/8/8/8/8/PPPPPPPP/RNBQKBNR w KQkq - - -";
    let board_state: Result<BoardState, &str> = BoardState::new(board_state_fen);
    let board: BoardState;
    match board_state {
        Ok(_) => board = board_state.unwrap(),
        Err(e) => panic!("Error: {}", e),
    }
    assert_eq!(evaluate(&board), 0);
}

#[test]
fn test_e4() {
    let board_state_fen = "rnbqkbnr/pppppppp/8/8/4P3/8/PPPP1PPP/RNBQKBNR b KQkq - 0 1";
    let board_state: Result<BoardState, &str> = BoardState::new(board_state_fen);
    let board: BoardState;
    match board_state {
        Ok(_) => board = board_state.unwrap(),
        Err(e) => panic!("Error: {}", e),
    }
    assert_eq!(evaluate(&board), -32);
}

#[test]
fn test_d4() {
    let board_state_fen = "rnbqkbnr/pppppppp/8/8/3P4/8/PPP1PPPP/RNBQKBNR b KQkq - 0 1";
    let board_state: Result<BoardState, &str> = BoardState::new(board_state_fen);
    let board: BoardState;
    match board_state {
        Ok(_) => board = board_state.unwrap(),
        Err(e) => panic!("Error: {}", e),
    }
    assert_eq!(evaluate(&board), -35);
}

#[test]
fn test_black_overwhelming() {
    let board_state_fen = "r1kq1b2/1p2b3/3p4/2n1p1p1/8/7r/N4P2/KR6 b KQkq - 0 1";
    let board_state: Result<BoardState, &str> = BoardState::new(board_state_fen);
    let board: BoardState;
    match board_state {
        Ok(_) => board = board_state.unwrap(),
        Err(e) => panic!("Error: {}", e),
    }
    assert_eq!(evaluate(&board), 2470);
}

#[test]
fn test_random_opening() {
    let board_state_fen = "r2qkb1r/1p1n1pp1/p2p1n2/3bp2p/4P3/1N2BP2/PPPQ2PP/R3KB1R w KQkq - 0 1";
    let board_state: Result<BoardState, &str> = BoardState::new(board_state_fen);
    let board: BoardState;
    match board_state {
        Ok(_) => board = board_state.unwrap(),
        Err(e) => panic!("Error: {}", e),
    }
    assert_eq!(evaluate(&board), -410);
}

#[test]
fn test_random_pos() {
    let board_state_fen = "rnb1kbnr/pppp1ppp/8/4p1q1/3PP3/2N5/PPP2PPP/R1BQKBNR b KQkq - 0 1";
    let board_state: Result<BoardState, &str> = BoardState::new(board_state_fen);
    let board: BoardState;
    match board_state {
        Ok(_) => board = board_state.unwrap(),
        Err(e) => panic!("Error: {}", e),
    }
    assert_eq!(evaluate(&board), -75);
}

// Flipping only the side to move negates the score: the same physical
// position scores x for White to move and -x for Black to move.
#[test]
fn evaluation_symmetry_concrete() {
    let pairs = [
        (
            "rnbqkbnr/pppppppp/8/8/4P3/8/PPPP1PPP/RNBQKBNR w KQkq - 0 1",
            "rnbqkbnr/pppppppp/8/8/4P3/8/PPPP1PPP/RNBQKBNR b KQkq - 0 1",
        ),
        (
            "r1kq1b2/1p2b3/3p4/2n1p1p1/8/7r/N4P2/KR6 w KQkq - 0 1",
            "r1kq1b2/1p2b3/3p4/2n1p1p1/8/7r/N4P2/KR6 b KQkq - 0 1",
        ),
        (
            "8/2p5/3p4/KP5r/1R3p1k/8/4P1P1/8 w - - - -",
            "8/2p5/3p4/KP5r/1R3p1k/8/4P1P1/8 b - - - -",
        ),
    ];
    for (white_fen, black_fen) in pairs {
        let w = BoardState::new(white_fen).unwrap();
        let b = BoardState::new(black_fen).unwrap();
        assert_eq!(evaluate(&w), -evaluate(&b));
    }
}
