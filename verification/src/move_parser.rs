use vstd::prelude::*;
use crate::board_model::{move_legal, wf_board};
use crate::board_state::BoardState;
use crate::chess_move::{castle, is_space, moves_equal, Move, MoveType, Position};
use crate::color::Color;
use crate::move_gen::gen_all_moves;
use crate::piece::{Piece, PieceType};

verus! {

/// What has been read so far of a move written in algebraic notation.
#[derive(Debug)]
pub struct MoveMetadata<'a> {
    pub piece: Option<PieceType>,
    pub from_square_y: Option<usize>,
    pub to_square_x: Option<usize>,
    pub to_square_y: Option<usize>,
    pub promotion: Option<PieceType>,
    pub is_from_populated: bool,
    pub is_capture: Option<bool>,
    pub captured_piece: Option<Piece>,
    pub piece_rank: Option<usize>,
    pub just_saw_promotion_char: bool,
    pub is_check: bool,
    pub is_checkmate: bool,
    pub move_string: &'a str,
}

/// Board index named by a file letter or by a rank digit.
pub open spec fn square_index_of(c: char) -> Option<int> {
    if c == 'a' || c == '8' {
        Some(2int)
    } else if c == 'b' || c == '7' {
        Some(3int)
    } else if c == 'c' || c == '6' {
        Some(4int)
    } else if c == 'd' || c == '5' {
        Some(5int)
    } else if c == 'e' || c == '4' {
        Some(6int)
    } else if c == 'f' || c == '3' {
        Some(7int)
    } else if c == 'g' || c == '2' {
        Some(8int)
    } else if c == 'h' || c == '1' {
        Some(9int)
    } else {
        None
    }
}

/// Piece kind named by a letter; any file letter names a pawn.
pub open spec fn piece_kind_of(c: char) -> Option<PieceType> {
    if c == 'K' {
        Some(PieceType::King)
    } else if c == 'Q' {
        Some(PieceType::Queen)
    } else if c == 'B' {
        Some(PieceType::Bishop)
    } else if c == 'N' {
        Some(PieceType::Knight)
    } else if c == 'R' {
        Some(PieceType::Rook)
    } else if c == 'a' || c == 'b' || c == 'c' || c == 'd' || c == 'e' || c == 'f' || c == 'g' || c
        == 'h' {
        Some(PieceType::Pawn)
    } else {
        None
    }
}

/// Parses a move written in algebraic notation against the given position:
/// the text must name a move that the position actually allows, and the move
/// handed back is one of the position's legal moves.
pub fn parse_move<'a>(move_string: &'a str, board: &'a BoardState) -> (r: Result<Move, &'a str>)
    requires
        wf_board(board@),
    ensures
        r matches Ok(m) ==> move_legal(board@, m),
{
    let move_metadata = match parse_fen(move_string) {
        Ok(v) => v,
        Err(e) => {
            return Err(e);
        },
    };
    let moves = gen_all_moves(board, board.active_color);
    let ghost moves_view = moves@;
    let res = validate_move(&move_metadata, board, moves);
    proof {
        match res {
            Ok(m) => {
                let i = choose|i: int| 0 <= i < moves_view.len() && moves_view[i] == m;
                assert(move_legal(board@, moves_view[i]));
            },
            Err(_) => {},
        }
    }
    res
}

/// Whether the character occurs in the text.
fn contains_char(s: &str, target: char) -> (r: bool)
    ensures
        r == exists|i: int| 0 <= i < s@.len() && s@[i] == target,
{
    let n = s.unicode_len();
    let mut i: usize = 0;
    while i < n
        invariant
            i <= n,
            n == s@.len(),
            forall|k: int| 0 <= k < i ==> s@[k] != target,
        decreases n - i,
    {
        if s.get_char(i) == target {
            return true;
        }
        i = i + 1;
    }
    false
}

/// Reads the pieces of a move out of its text: the piece letter, the
/// destination square, a disambiguating rank, capture and promotion marks.
/// The text must at least name a piece and a full destination square.
fn parse_fen<'a>(move_string: &'a str) -> (r: Result<MoveMetadata<'a>, &'a str>)
    ensures
        r matches Ok(mi) ==> {
            &&& mi.piece is Some
            &&& mi.to_square_x matches Some(x) && 2 <= x <= 9
            &&& mi.to_square_y matches Some(y) && 2 <= y <= 9
        },
{
    let n0 = move_string.unicode_len();
    // Trim blanks off both ends.
    let mut a: usize = 0;
    while a < n0 && is_space(move_string.get_char(a))
        invariant
            a <= n0,
            n0 == move_string@.len(),
        decreases n0 - a,
    {
        a = a + 1;
    }
    let mut b: usize = n0;
    while b > a && is_space(move_string.get_char(b - 1))
        invariant
            a <= b <= n0,
            n0 == move_string@.len(),
        decreases b,
    {
        b = b - 1;
    }
    let trimmed_string = move_string.substring_char(a, b);
    let n = trimmed_string.unicode_len();

    let mut move_info = MoveMetadata {
        piece: None,
        from_square_y: None,
        to_square_x: None,
        to_square_y: None,
        promotion: None,
        is_from_populated: false,
        is_capture: None,
        captured_piece: None,
        piece_rank: None,
        just_saw_promotion_char: false,
        is_check: false,
        is_checkmate: false,
        move_string: trimmed_string,
    };

    let has_capture_mark = contains_char(trimmed_string, 'x');

    let mut i: usize = 0;
    while i < n
        invariant
            i <= n,
            n == trimmed_string@.len(),
            move_info.to_square_x matches Some(x) ==> 2 <= x <= 9,
            move_info.to_square_y matches Some(y) ==> 2 <= y <= 9,
        decreases n - i,
    {
        let ch = trimmed_string.get_char(i);
        if move_info.piece.is_none() {
            let parsed_piece = match char_to_piece_type(ch) {
                Ok(p) => p,
                Err(_) => {
                    return Err("Parse error: Invalid Piece type.");
                },
            };
            move_info.piece = Some(parsed_piece);
            // A pawn move without a capture mark opens with its destination
            // file, such as e4.
            if parsed_piece == PieceType::Pawn && !has_capture_mark {
                match char_to_board_index(ch) {
                    Ok(v) => {
                        move_info.to_square_x = Some(v);
                    },
                    Err(_) => {
                        proof {
                            assert(false);
                        }
                        return Err("Parse error: Invalid Piece type.");
                    },
                }
            }
        } else {
            if ch == 'a' || ch == 'b' || ch == 'c' || ch == 'd' || ch == 'e' || ch == 'f' || ch
                == 'g' || ch == 'h' {
                let _ = handle_lowercase_char(&mut move_info, ch);
            } else if ch == '1' || ch == '2' || ch == '3' || ch == '4' || ch == '5' || ch == '6'
                || ch == '7' || ch == '8' {
                let _ = handle_numeric_char(&mut move_info, ch);
            } else if ch == 'x' {
                let _ = handle_capture(&mut move_info);
            } else if ch == '=' {
                let _ = handle_promotion(&mut move_info);
            } else if ch == 'Q' || ch == 'B' || ch == 'N' || ch == 'R' {
                let _ = handle_piece_char(&mut move_info, ch);
            } else if ch == '+' {
                move_info.is_check = true;
            } else if ch == '#' {
                move_info.is_checkmate = true;
            } else {
                return Err("Parse error: Encountered an unexpected character.");
            }
        }
        i = i + 1;
    }

    if move_info.piece.is_none() {
        return Err("Parse error: Missing piece field.");
    }
    if move_info.to_square_x.is_none() {
        return Err("Parse error: Missing x coord of square to move to!");
    }
    if move_info.to_square_y.is_none() {
        return Err("Parse error: Missing y coord of square to move to!");
    }

    Ok(move_info)
}

/// Picks, among the position's legal moves, the one the parsed text names:
/// the capture state, piece kind, destination square, promotion piece and
/// (when needed) the origin rank must all agree. The move handed back always
/// comes from the given move list.
pub fn validate_move<'a>(move_info: &MoveMetadata<'a>, board: &'a BoardState, moves: Vec<Move>)
    -> (r: Result<Move, &'a str>)
    requires
        move_info.to_square_x matches Some(x) && 2 <= x <= 9,
        move_info.to_square_y matches Some(y) && 2 <= y <= 9,
        move_info.piece is Some,
    ensures
        r matches Ok(m) ==> moves@.contains(m),
{
    let after_pos = Position {
        row: match move_info.to_square_y {
            Some(v) => v,
            None => {
                proof {
                    assert(false);
                }
                0
            },
        },
        col: match move_info.to_square_x {
            Some(v) => v,
            None => {
                proof {
                    assert(false);
                }
                0
            },
        },
    };

    let is_capture = match move_info.is_capture {
        Some(true) => true,
        _ => false,
    };

    let mut captured_piece: Option<Piece> = None;
    if is_capture {
        captured_piece = board.piece_on(after_pos.row, after_pos.col);
        if captured_piece.is_none() {
            return Err("Parse error: No piece to capture at destination square.");
        }
    }

    let wanted_piece = match move_info.piece {
        Some(p) => p,
        None => {
            proof {
                assert(false);
            }
            PieceType::Pawn
        },
    };

    // The text may fit several moves (two knights reaching the same square),
    // so gather every candidate first.
    let mut valid_moves: Vec<Move> = Vec::new();
    let mut i: usize = 0;
    while i < moves.len()
        invariant
            forall|k: int| 0 <= k < valid_moves@.len() ==> moves@.contains(#[trigger] valid_moves@[k]),
        decreases moves@.len() - i,
    {
        let mv = moves[i];
        let cap_match = match (mv.piece_captured, captured_piece) {
            (Some(p1), Some(p2)) => p1 == p2,
            (None, None) => true,
            _ => false,
        };
        let mut keep = false;
        if cap_match {
            match mv.move_type {
                MoveType::Standard(standard) => {
                    let rank_match = match (move_info.piece_rank, move_info.from_square_y) {
                        (Some(r1), Some(r2)) => r1 == r2,
                        (None, None) => true,
                        _ => false,
                    };
                    keep = standard.piece_moved.piece_type == wanted_piece && standard.after.row
                        == after_pos.row && standard.after.col == after_pos.col
                        && move_info.promotion.is_none() && rank_match;
                },
                MoveType::Promotion(promo_move) => {
                    match move_info.promotion {
                        Some(want_promo) => {
                            keep = promo_move.promote_to.piece_type == want_promo
                                && promo_move.after.row == after_pos.row && promo_move.after.col
                                == after_pos.col;
                        },
                        None => {},
                    }
                },
                MoveType::EnPassant(enpassant) => {
                    let pawn_wanted = wanted_piece == PieceType::Pawn;
                    let victim_is_pawn = match captured_piece {
                        Some(p) => p.piece_type == PieceType::Pawn,
                        None => false,
                    };
                    keep = pawn_wanted && is_capture && victim_is_pawn && enpassant.after.row
                        == after_pos.row && enpassant.after.col == after_pos.col;
                },
                MoveType::Castle(_) => {},
            }
        }
        if keep {
            proof {
                assert(moves@[i as int] == mv);
                assert(moves@.contains(mv));
            }
            valid_moves.push(mv);
        }
        i = i + 1;
    }

    if valid_moves.len() == 1 {
        return Ok(valid_moves[0]);
    }
    if valid_moves.len() > 1 {
        let ghost vm = valid_moves@;
        let picked = select_correct_move(move_info, valid_moves);
        proof {
            match picked {
                Ok(m) => {
                    let k = choose|k: int| 0 <= k < vm.len() && vm[k] == m;
                    assert(moves@.contains(vm[k]));
                },
                Err(_) => {},
            }
        }
        return picked;
    }
    Err("Could not find a valid move that matches your input!")
}

/// Takes a file letter as the destination file; a second one is a stray.
pub fn handle_lowercase_char(move_info: &mut MoveMetadata, ch: char) -> (r: Result<
    (),
    &'static str,
>)
    requires
        square_index_of(ch) is Some,
    ensures
        old(move_info).to_square_x is Some ==> r is Err && *final(move_info) == *old(move_info),
        old(move_info).to_square_x is None ==> r is Ok && *final(move_info) == (MoveMetadata {
            to_square_x: Some(square_index_of(ch).unwrap() as usize),
            ..*old(move_info)
        }),
{
    if move_info.to_square_x.is_some() {
        return Err(
            "Parse error: Encountered an unexpected character when trying to find the 'to' square.",
        );
    }
    match char_to_board_index(ch) {
        Ok(v) => {
            move_info.to_square_x = Some(v);
        },
        Err(_) => {
            proof {
                assert(false);
            }
        },
    }
    Ok(())
}

/// Takes a rank digit: a pawn's destination rank, a disambiguating origin
/// rank, or the destination rank once the file is known.
pub fn handle_numeric_char(move_info: &mut MoveMetadata, ch: char) -> (r: Result<(), &'static str>)
    requires
        square_index_of(ch) is Some,
    ensures
        old(move_info).piece == Some(PieceType::Pawn) && old(move_info).to_square_y is Some ==> r
            is Err && *final(move_info) == *old(move_info),
        old(move_info).piece == Some(PieceType::Pawn) && old(move_info).to_square_y is None ==> r
            is Ok && *final(move_info) == (MoveMetadata {
            to_square_y: Some(square_index_of(ch).unwrap() as usize),
            ..*old(move_info)
        }),
        old(move_info).piece != Some(PieceType::Pawn) && old(move_info).to_square_x is None ==> r
            is Ok && *final(move_info) == (MoveMetadata {
            piece_rank: Some(square_index_of(ch).unwrap() as usize),
            ..*old(move_info)
        }),
        old(move_info).piece != Some(PieceType::Pawn) && old(move_info).to_square_x is Some ==> r
            is Ok && *final(move_info) == (MoveMetadata {
            to_square_y: Some(square_index_of(ch).unwrap() as usize),
            ..*old(move_info)
        }),
{
    let idx = match char_to_board_index(ch) {
        Ok(v) => v,
        Err(_) => {
            proof {
                assert(false);
            }
            return Err("Invalid character in move string");
        },
    };
    let is_pawn = match move_info.piece {
        Some(PieceType::Pawn) => true,
        _ => false,
    };
    if is_pawn {
        if move_info.to_square_y.is_some() {
            return Err("Parse error: Encountered an unexpected number while parsing a pawn move.");
        }
        move_info.to_square_y = Some(idx);
        return Ok(());
    }
    if move_info.to_square_x.is_none() {
        move_info.piece_rank = Some(idx);
        return Ok(());
    }
    move_info.to_square_y = Some(idx);
    Ok(())
}

/// Takes the capture mark; a second one is a stray.
pub fn handle_capture(move_info: &mut MoveMetadata) -> (r: Result<(), &'static str>)
    ensures
        old(move_info).is_capture is Some ==> r is Err && *final(move_info) == *old(move_info),
        old(move_info).is_capture is None ==> r is Ok && *final(move_info) == (MoveMetadata {
            is_capture: Some(true),
            ..*old(move_info)
        }),
{
    if move_info.is_capture.is_some() {
        return Err("Parse error: Encountered an unexpected 'x'");
    }
    move_info.is_capture = Some(true);
    Ok(())
}

/// Takes the promotion mark; a second one in a row is a stray.
pub fn handle_promotion(move_info: &mut MoveMetadata) -> (r: Result<(), &'static str>)
    ensures
        old(move_info).just_saw_promotion_char ==> r is Err && *final(move_info) == *old(move_info),
        !old(move_info).just_saw_promotion_char ==> r is Ok && *final(move_info) == (MoveMetadata {
            just_saw_promotion_char: true,
            ..*old(move_info)
        }),
{
    if move_info.just_saw_promotion_char {
        return Err("Parse error: Encountered an unexpected '='");
    }
    move_info.just_saw_promotion_char = true;
    Ok(())
}

/// Takes the piece a pawn promotes to; only one promotion piece may appear.
pub fn handle_piece_char(move_info: &mut MoveMetadata, ch: char) -> (r: Result<(), &'static str>)
    requires
        piece_kind_of(ch) is Some,
    ensures
        old(move_info).promotion is Some ==> r is Err && *final(move_info) == *old(move_info),
        old(move_info).promotion is None ==> r is Ok && *final(move_info) == (MoveMetadata {
            promotion: Some(piece_kind_of(ch).unwrap()),
            just_saw_promotion_char: false,
            ..*old(move_info)
        }),
{
    if move_info.promotion.is_some() {
        return Err("Parse error: Encountered an unexpected character while parsing promotion.");
    }
    match char_to_piece_type(ch) {
        Ok(p) => {
            move_info.promotion = Some(p);
        },
        Err(_) => {
            proof {
                assert(false);
            }
        },
    }
    move_info.just_saw_promotion_char = false;
    Ok(())
}

/// Board index of a file letter or rank digit.
pub fn char_to_board_index(ch: char) -> (r: Result<usize, &'static str>)
    ensures
        r matches Ok(v) ==> square_index_of(ch) == Some(v as int) && 2 <= v <= 9,
        r is Err ==> square_index_of(ch) is None,
{
    if ch == 'a' || ch == '8' {
        Ok(2)
    } else if ch == 'b' || ch == '7' {
        Ok(3)
    } else if ch == 'c' || ch == '6' {
        Ok(4)
    } else if ch == 'd' || ch == '5' {
        Ok(5)
    } else if ch == 'e' || ch == '4' {
        Ok(6)
    } else if ch == 'f' || ch == '3' {
        Ok(7)
    } else if ch == 'g' || ch == '2' {
        Ok(8)
    } else if ch == 'h' || ch == '1' {
        Ok(9)
    } else {
        Err("Invalid character in move string")
    }
}

/// Piece kind named by a letter; file letters name pawn moves.
pub fn char_to_piece_type(ch: char) -> (r: Result<PieceType, &'static str>)
    ensures
        r matches Ok(p) ==> piece_kind_of(ch) == Some(p),
        r is Err ==> piece_kind_of(ch) is None,
{
    if ch == 'K' {
        Ok(PieceType::King)
    } else if ch == 'Q' {
        Ok(PieceType::Queen)
    } else if ch == 'B' {
        Ok(PieceType::Bishop)
    } else if ch == 'N' {
        Ok(PieceType::Knight)
    } else if ch == 'R' {
        Ok(PieceType::Rook)
    } else if ch == 'a' || ch == 'b' || ch == 'c' || ch == 'd' || ch == 'e' || ch == 'f' || ch
        == 'g' || ch == 'h' {
        Ok(PieceType::Pawn)
    } else {
        Err("Invalid character in move string")
    }
}

/// Resolves a castling request: the text 0-0 asks for the kingside, anything
/// else for the queenside, and the move must be among the legal ones.
pub fn handle_castle_move(trimmed_string: &str, color: Color, moves: Vec<Move>) -> (r: Result<
    Move,
    &'static str,
>)
    ensures
        r matches Ok(m) ==> moves@.contains(m) && m.piece_captured is None,
{
    let is_kingside = str_is_short_castle(trimmed_string);
    let parsed_move = castle(is_kingside, color);
    let mut i: usize = 0;
    while i < moves.len()
        invariant
            parsed_move.piece_captured is None,
        decreases moves@.len() - i,
    {
        let found = moves[i];
        if moves_equal(found, parsed_move) {
            proof {
                assert(moves@[i as int] == found);
                assert(moves@.contains(found));
                assert(found.piece_captured is None);
            }
            return Ok(found);
        }
        i = i + 1;
    }
    Err("Cannot castle kingside")
}

/// Whether the text reads exactly 0-0.
fn str_is_short_castle(s: &str) -> (r: bool)
    ensures
        r == (s@ =~= "0-0"@),
{
    proof {
        reveal_strlit("0-0");
    }
    let n = s.unicode_len();
    if n != 3 {
        return false;
    }
    s.get_char(0) == '0' && s.get_char(1) == '-' && s.get_char(2) == '0'
}

/// Disambiguates between several fitting moves by the origin rank the text
/// gave; without one the request stays ambiguous.
pub fn select_correct_move<'a>(move_info: &MoveMetadata<'a>, valid_moves: Vec<Move>) -> (r: Result<
    Move,
    &'static str,
>)
    ensures
        r matches Ok(m) ==> valid_moves@.contains(m),
{
    let rank = match move_info.piece_rank {
        Some(v) => v,
        None => {
            return Err(
                "Ambiguous move: Multiple pieces of the same type can move to the same square. Please specify the rank of the piece you want to move.",
            );
        },
    };
    let mut i: usize = 0;
    while i < valid_moves.len()
        decreases valid_moves@.len() - i,
    {
        let mv = valid_moves[i];
        let matches_rank = match mv.move_type {
            MoveType::Standard(standard) => standard.before.row == rank,
            MoveType::Promotion(promo_move) => promo_move.before.row == rank,
            MoveType::EnPassant(enpassant) => enpassant.before.row == rank,
            MoveType::Castle(_) => false,
        };
        if matches_rank {
            proof {
                assert(valid_moves@[i as int] == mv);
                assert(valid_moves@.contains(mv));
            }
            return Ok(mv);
        }
        i = i + 1;
    }
    Err(
        "Could not figure out which piece to move amongst several options. Please specify the rank of the rank of the piece you want to move.",
    )
}

} // verus!
