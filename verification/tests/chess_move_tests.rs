use chess_engine::chess_move::{castle, en_passant, promotion, standard, MoveType, Position};
use chess_engine::color::Color;
use chess_engine::piece::{Piece, PieceType};

#[test]
fn chess_move_test_1() {
    let res = Position::from_string(String::from("e1"));
    match res {
        Ok(val) => assert_eq!(Position { row: 9, col: 6 }, val),
        Err(e) => panic!("{}", e),
    }
}

#[test]
fn test_2() {
    let res = Position::from_string(String::from("h5"));
    match res {
        Ok(val) => assert_eq!(Position { row: 5, col: 9 }, val),
        Err(e) => panic!("{}", e),
    }
}

#[test]
fn test_3() {
    let res = Position::from_string(String::from("C7"));
    match res {
        Ok(val) => assert_eq!(Position { row: 3, col: 4 }, val),
        Err(e) => panic!("{}", e),
    }
}

#[test]
fn test_4() {
    let res = Position::from_string(String::from("CC7"));
    match res {
        Ok(_val) => panic!("Shoudl have returned Error"),
        Err(_e) => {}
    }
}

#[test]
fn test_5() {
    let res = Position::from_string(String::from("C7 "));
    match res {
        Ok(val) => assert_eq!(Position { row: 3, col: 4 }, val),
        Err(e) => panic!("{}", e),
    }
}

#[test]
fn test_6() {
    let res = Position::from_string(String::from("C7 E4"));
    match res {
        Ok(_val) => panic!("Shoudl have returned Error"),
        Err(_e) => {}
    }
}

#[test]
fn position_to_string_round_trip() {
    let p = Position { row: 6, col: 6 };
    assert_eq!(p.to_string(), "e4");
    let q = Position::from_string(String::from("e4")).unwrap();
    assert_eq!(p, q);
    assert_eq!(Position { row: 2, col: 2 }.to_string(), "a8");
    assert_eq!(Position { row: 9, col: 9 }.to_string(), "h1");
}

#[test]
fn position_steps() {
    let p = Position { row: 5, col: 5 };
    assert_eq!(p.up(), Position { row: 4, col: 5 });
    assert_eq!(p.down(), Position { row: 6, col: 5 });
    assert_eq!(p.left(), Position { row: 5, col: 4 });
    assert_eq!(p.right(), Position { row: 5, col: 6 });
    assert_eq!(p.swap(), Position { row: 5, col: 5 });
    assert_eq!(Position { row: 3, col: 7 }.swap(), Position { row: 7, col: 3 });
    assert!(p.is_valid_position());
    assert!(!Position { row: 1, col: 5 }.is_valid_position());
    assert!(!Position { row: 5, col: 10 }.is_valid_position());
}

#[test]
fn move_constructors_and_text() {
    let before = Position { row: 8, col: 6 };
    let after = Position { row: 6, col: 6 };
    let pawn = Piece { piece_type: PieceType::Pawn, color: Color::White };
    let mv = standard(before, after, pawn, None);
    match mv.move_type {
        MoveType::Standard(s) => {
            assert_eq!(s.before, before);
            assert_eq!(s.after, after);
            assert_eq!(s.piece_moved, pawn);
        }
        _ => panic!("expected a standard move"),
    }
    assert_eq!(mv.piece_captured, None);
    assert_eq!(mv.to_string(), "e2e4");

    let c = castle(true, Color::White);
    assert_eq!(c.piece_captured, None);
    assert_eq!(c.to_string(), "0-0");
    assert_eq!(castle(false, Color::Black).to_string(), "0-0-0");

    let promo = promotion(
        Position { row: 3, col: 5 },
        Position { row: 2, col: 5 },
        Piece { piece_type: PieceType::Queen, color: Color::White },
        None,
    );
    match promo.move_type {
        MoveType::Promotion(p) => assert_eq!(p.promote_to.piece_type, PieceType::Queen),
        _ => panic!("expected a promotion"),
    }

    let ep = en_passant(
        Position { row: 5, col: 5 },
        Position { row: 4, col: 6 },
        Position { row: 5, col: 6 },
        Some(Piece { piece_type: PieceType::Pawn, color: Color::Black }),
    );
    match ep.move_type {
        MoveType::EnPassant(e) => {
            assert_eq!(e.en_passant_pos, Position { row: 5, col: 6 });
        }
        _ => panic!("expected an en passant move"),
    }
}

#[test]
fn color_opposites() {
    assert_eq!(Color::White.opposite(), Color::Black);
    assert_eq!(Color::Black.opposite(), Color::White);
    assert_eq!(Color::White.color_to_string(), "white");
    assert_eq!(Color::Black.color_to_string(), "blue");
}

#[test]
fn from_string_error_variants() {
    // Second character is not a digit.
    assert!(Position::from_string(String::from("ex")).is_err());
    // First character is not a file letter.
    assert!(Position::from_string(String::from("z5")).is_err());
    // Wrong token length.
    assert!(Position::from_string(String::from("e")).is_err());
}
