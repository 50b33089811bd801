use vstd::prelude::*;
use crate::board_model::{
    captures_king, king_at, lemma_apply_wf, lemma_move_ok_on_grid, lemma_ray_dest_valid,
    lemma_ray_monotone, lemma_ray_split, move_fits, move_legal, move_ok, movement_ok,
    no_legal_move, on_ray_clear, piece_at, slider_dirs_ok, spec_apply, square_attacked, wf_board,
    BoardModel, CastleRights,
};
use crate::board_state::BoardState;
use crate::chess_move::{
    castle, col_delta, en_passant, promotion, row_delta, standard, valid_pos, Direction, Move,
    MoveType, Position,
};
use crate::color::{other, Color};
use crate::piece::{Piece, PieceType};

verus! {

/// A pseudo-legal move as the per-piece generators emit them: sound against
/// the board and geometrically a real move of its piece, except that it may
/// still capture a king; such moves are discarded by the legality filter.
pub open spec fn pseudo_move_ok(b: BoardModel, m: Move) -> bool {
    move_fits(b, m) && movement_ok(b, m)
}

/// Every entry of the move list is sound, geometrically real, and leaves the
/// mover's king out of check.
pub open spec fn all_legal(b: BoardModel, ms: Seq<Move>) -> bool {
    forall|i: int| 0 <= i < ms.len() ==> move_legal(b, #[trigger] ms[i])
}

/// Every legal move of the position is in the list.
pub open spec fn all_legal_present(b: BoardModel, ms: Seq<Move>) -> bool {
    forall|m: Move| #[trigger] move_legal(b, m) ==> ms.contains(m)
}

/// The square a move is played from; a castle is played from the king's home
/// square.
pub open spec fn move_source(m: Move) -> Position {
    match m.move_type {
        MoveType::Standard(s) => s.before,
        MoveType::Promotion(pm) => pm.before,
        MoveType::EnPassant(em) => em.before,
        MoveType::Castle(cm) => Position {
            row: if cm.color == Color::White {
                9
            } else {
                2
            },
            col: 6,
        },
    }
}

/// A sound, geometrically real move played from the square p.
pub open spec fn pseudo_legal_from(b: BoardModel, m: Move, p: Position) -> bool {
    move_ok(b, m) && movement_ok(b, m) && move_source(m) == p
}

/// The standard move from `before` to `after`, capturing whatever stands on
/// `after`.
pub open spec fn standard_move_to(b: BoardModel, before: Position, piece: Piece, after: Position) -> Move {
    Move {
        move_type: MoveType::Standard(
            crate::chess_move::StandardMove { before, after, piece_moved: piece },
        ),
        piece_captured: piece_at(b, after.row as int, after.col as int),
    }
}

/// The move is a standard move of `piece` from `pos` onto some clear-ray
/// destination along direction d, capturing whatever stands there.
pub open spec fn ray_element(b: BoardModel, pos: Position, piece: Piece, d: Direction, m: Move) -> bool {
    exists|q: Position|
        #[trigger] on_ray_clear(b, pos.row as int, pos.col as int, d, q.row as int, q.col as int)
            && m == standard_move_to(b, pos, piece, q)
}

/// The destination is empty or holds an enemy of the given color.
pub open spec fn dest_free_or_enemy(b: BoardModel, r: int, c: int, color: Color) -> bool {
    match piece_at(b, r, c) {
        Some(p) => p.color == other(color),
        None => true,
    }
}

/// Whether the list already holds this move.
fn contains_move(v: &Vec<Move>, m: Move) -> (r: bool)
    ensures
        r == v@.contains(m),
{
    let mut i: usize = 0;
    while i < v.len()
        invariant
            forall|k: int| 0 <= k < i ==> v@[k] != m,
        decreases v@.len() - i,
    {
        if crate::chess_move::moves_equal(v[i], m) {
            return true;
        }
        i = i + 1;
    }
    false
}

/// Pushing an element a sequence does not contain keeps it duplicate-free.
proof fn lemma_push_keeps_no_duplicates(s: Seq<Move>, v: Move)
    requires
        s.no_duplicates(),
        !s.contains(v),
    ensures
        s.push(v).no_duplicates(),
{
    assert forall|i: int, j: int|
        0 <= i < s.push(v).len() && 0 <= j < s.push(v).len() && i != j implies s.push(v)[i]
        != s.push(v)[j] by {
        if i < s.len() && j < s.len() {
            assert(s.push(v)[i] == s[i] && s.push(v)[j] == s[j]);
        } else if i < s.len() {
            assert(s.push(v)[i] == s[i]);
            if s[i] == v {
                assert(s.contains(v));
            }
        } else {
            assert(s.push(v)[j] == s[j]);
            if s[j] == v {
                assert(s.contains(v));
            }
        }
    }
}

/// Pushing keeps everything a sequence contained, and contains the new last
/// element.
proof fn lemma_contains_after_push(s: Seq<Move>, v: Move)
    ensures
        s.push(v).contains(v),
        forall|x: Move| s.contains(x) ==> #[trigger] s.push(v).contains(x),
{
    assert(s.push(v)[s.len() as int] == v);
    assert forall|x: Move| s.contains(x) implies #[trigger] s.push(v).contains(x) by {
        let i = choose|i: int| 0 <= i < s.len() && s[i] == x;
        assert(s.push(v)[i] == x);
    }
}

/// Concatenation keeps what either side contained.
proof fn lemma_contains_after_append(s: Seq<Move>, t: Seq<Move>)
    ensures
        forall|x: Move| s.contains(x) ==> #[trigger] (s + t).contains(x),
        forall|x: Move| t.contains(x) ==> #[trigger] (s + t).contains(x),
{
    assert forall|x: Move| s.contains(x) implies #[trigger] (s + t).contains(x) by {
        let i = choose|i: int| 0 <= i < s.len() && s[i] == x;
        assert((s + t)[i] == x);
    }
    assert forall|x: Move| t.contains(x) implies #[trigger] (s + t).contains(x) by {
        let i = choose|i: int| 0 <= i < t.len() && t[i] == x;
        assert((s + t)[s.len() + i] == x);
    }
}

/// Generates the full legal move list for `color` in `board`: pseudo-legal
/// moves per piece kind, then a filter that applies each candidate to a copy
/// of the board and discards it when the mover's own king would be attacked.
/// The list is exactly the legal moves, each once: every entry is sound,
/// geometrically real and leaves the king safe, every such move is an entry,
/// and no entry repeats. An empty result therefore means the position is
/// terminal.
#[verifier::rlimit(100)]
pub fn gen_all_moves(board: &BoardState, color: Color) -> (r: Vec<Move>)
    requires
        wf_board(board@),
        color == board@.active_color,
    ensures
        all_legal(board@, r@),
        all_legal_present(board@, r@),
        r@.no_duplicates(),
{
    let (curr_set, _other_set, king_pos_opt) = find_pieces(board, color);

    let king_pos: Position;
    match king_pos_opt {
        Some(val) => {
            king_pos = val;
        },
        None => {
            // Unreachable: a structurally valid board has a king of each color.
            proof {
                let (kr, kc) = choose|kr: int, kc: int| king_at(board@, color, kr, kc);
                assert(king_at(board@, color, kr, kc));
                assert(false);
            }
            return Vec::new();
        },
    }

    let mut move_set: Vec<Move> = Vec::new();
    let mut i: usize = 0;
    while i < curr_set.len()
        invariant
            wf_board(board@),
            color == board@.active_color,
            king_at(board@, color, king_pos.row as int, king_pos.col as int),
            forall|k: int|
                0 <= k < curr_set@.len() ==> {
                    &&& valid_pos(
                        (#[trigger] curr_set@[k]).row as int,
                        curr_set@[k].col as int,
                    )
                    &&& piece_at(board@, curr_set@[k].row as int, curr_set@[k].col as int) is Some
                    &&& piece_at(
                        board@,
                        curr_set@[k].row as int,
                        curr_set@[k].col as int,
                    ).unwrap().color == color
                },
            forall|k: int| 0 <= k < move_set@.len() ==> pseudo_move_ok(board@, #[trigger] move_set@[k]),
            forall|k: int, m: Move|
                0 <= k < i && #[trigger] pseudo_legal_from(board@, m, curr_set@[k])
                    ==> move_set@.contains(m),
        decreases curr_set@.len() - i,
    {
        let pos = curr_set[i];
        let curr_piece: Piece;
        match board.piece_on(pos.row, pos.col) {
            Some(p) => {
                curr_piece = p;
            },
            None => {
                proof {
                    assert(false);
                }
                i = i + 1;
                continue ;
            },
        }

        let mut new_moves: Vec<Move>;
        match curr_piece.piece_type {
            PieceType::Pawn => {
                new_moves = generate_pawn_moves(board, curr_piece, &pos);
            },
            PieceType::King => {
                proof {
                    // The board holds one king of this color, so this square
                    // is the one the scan found.
                    assert(king_at(board@, color, pos.row as int, pos.col as int));
                    assert(pos.row == king_pos.row && pos.col == king_pos.col);
                }
                new_moves = generate_castle_moves(
                    &king_pos,
                    &board.castle_rights,
                    curr_piece.color,
                    board,
                );
                let ghost castle_part = new_moves@;
                let mut king_moves = filter_moves(king_positions(pos), board, &curr_piece, pos);
                let ghost king_part = king_moves@;
                new_moves.append(&mut king_moves);
                proof {
                    lemma_contains_after_append(castle_part, king_part);
                    lemma_filter_covers_king(board@, pos, curr_piece, king_part);
                    assert forall|k: int| 0 <= k < new_moves@.len() implies pseudo_move_ok(
                        board@,
                        #[trigger] new_moves@[k],
                    ) by {
                        if k >= castle_part.len() {
                            assert(new_moves@[k] == king_part[k - castle_part.len()]);
                        }
                    }
                }
            },
            PieceType::Knight => {
                new_moves = filter_moves(knight_positions(pos), board, &curr_piece, pos);
                proof {
                    lemma_filter_covers_knight(board@, pos, curr_piece, new_moves@);
                }
            },
            PieceType::Rook => {
                new_moves = slider_moves(pos, curr_piece, board);
            },
            PieceType::Bishop => {
                new_moves = slider_moves(pos, curr_piece, board);
            },
            PieceType::Queen => {
                new_moves = slider_moves(pos, curr_piece, board);
            },
        }

        proof {
            lemma_arm_covers(board@, pos, curr_piece, new_moves@, king_pos);
        }
        let ghost move_set_pre = move_set@;
        let ghost arm_part = new_moves@;
        move_set.append(&mut new_moves);
        proof {
            lemma_contains_after_append(move_set_pre, arm_part);
            assert forall|k: int, m: Move|
                0 <= k < i + 1 && #[trigger] pseudo_legal_from(board@, m, curr_set@[k]) implies
                move_set@.contains(m) by {
                if k < i {
                    assert(move_set_pre.contains(m));
                } else {
                    assert(arm_part.contains(m));
                }
            }
            assert forall|k: int| 0 <= k < move_set@.len() implies pseudo_move_ok(
                board@,
                #[trigger] move_set@[k],
            ) by {
                if k >= move_set_pre.len() {
                    assert(move_set@[k] == arm_part[k - move_set_pre.len()]);
                }
            }
        }
        i = i + 1;
    }

    // A move is legal when it does not leave the mover's own king in check
    // afterwards; king captures are rejected outright. The king's square
    // after the move is known—its destination when the king itself moved,
    // its old square otherwise—so the check test needs no board scan.
    let mut legal_moves: Vec<Move> = Vec::new();
    let mut j: usize = 0;
    while j < move_set.len()
        invariant
            wf_board(board@),
            color == board@.active_color,
            king_at(board@, color, king_pos.row as int, king_pos.col as int),
            forall|k: int| 0 <= k < move_set@.len() ==> pseudo_move_ok(board@, #[trigger] move_set@[k]),
            forall|k: int| 0 <= k < legal_moves@.len() ==> move_legal(board@, #[trigger] legal_moves@[k]),
            forall|k: int|
                0 <= k < j && move_legal(board@, #[trigger] move_set@[k]) ==> legal_moves@.contains(
                    move_set@[k],
                ),
            legal_moves@.no_duplicates(),
        decreases move_set@.len() - j,
    {
        let mv = move_set[j];
        let captures_king: bool = match mv.piece_captured {
            Some(pc) => pc.piece_type == PieceType::King,
            None => false,
        };
        let ghost legal_pre = legal_moves@;
        if !captures_king {
            assert(move_ok(board@, mv) && movement_ok(board@, mv));
            proof {
                lemma_move_ok_on_grid(board@, mv);
                lemma_apply_wf(board@, mv);
            }
            let king_sq: Position = match mv.move_type {
                MoveType::Standard(s) => if s.piece_moved.piece_type == PieceType::King {
                    s.after
                } else {
                    king_pos
                },
                MoveType::Castle(cm) => Position {
                    row: if cm.color == Color::White {
                        9
                    } else {
                        2
                    },
                    col: if cm.is_kingside {
                        8
                    } else {
                        4
                    },
                },
                MoveType::Promotion(_) => king_pos,
                MoveType::EnPassant(_) => king_pos,
            };
            let mut board_copy: BoardState = *board;
            board_copy.make_move(&mv);
            proof {
                lemma_king_square_after(board@, mv, color, king_pos, king_sq);
            }
            if !board_copy.is_in_check(color, Some(king_sq)) {
                proof {
                    // The board keeps exactly one king of this color, so the
                    // known square speaks for every king square.
                    assert forall|kr: int, kc: int|
                        king_at(board_copy@, color, kr, kc) implies !square_attacked(
                        board_copy@,
                        color,
                        kr,
                        kc,
                    ) by {
                        assert(kr == king_sq.row as int && kc == king_sq.col as int);
                    }
                }
                // Keep each legal move once: a move two generators could both
                // emit must not be counted twice.
                if !contains_move(&legal_moves, mv) {
                    proof {
                        lemma_contains_after_push(legal_pre, mv);
                        lemma_push_keeps_no_duplicates(legal_pre, mv);
                    }
                    legal_moves.push(mv);
                }
            } else {
                proof {
                    // The known square is in check, so the move is not legal.
                    assert(king_at(board_copy@, color, king_sq.row as int, king_sq.col as int));
                    assert(!move_legal(board@, mv));
                }
            }
        }
        proof {
            assert forall|k: int|
                0 <= k < j + 1 && move_legal(board@, #[trigger] move_set@[k]) implies
                legal_moves@.contains(move_set@[k]) by {
                if k < j {
                    assert(legal_pre.contains(move_set@[k]));
                }
            }
        }
        j = j + 1;
    }

    proof {
        // Completeness: a legal move's source square holds a piece of the
        // side to move, so the scan visited it and the matching generator
        // emitted the move; being legal, the filter kept it.
        assert forall|m: Move| #[trigger] move_legal(board@, m) implies legal_moves@.contains(
            m,
        ) by {
            let p = move_source(m);
            lemma_source_occupied(board@, m);
            assert(curr_set@.contains(p));
            let k = choose|k: int| 0 <= k < curr_set@.len() && curr_set@[k] == p;
            assert(pseudo_legal_from(board@, m, curr_set@[k]));
            assert(move_set@.contains(m));
            let k2 = choose|k2: int| 0 <= k2 < move_set@.len() && move_set@[k2] == m;
            assert(legal_moves@.contains(move_set@[k2]));
        }
    }

    legal_moves
}

/// The source square of a sound, geometrically real move holds a piece of
/// the side to move.
proof fn lemma_source_occupied(b: BoardModel, m: Move)
    requires
        wf_board(b),
        move_ok(b, m),
        movement_ok(b, m),
    ensures
        valid_pos(move_source(m).row as int, move_source(m).col as int),
        piece_at(b, move_source(m).row as int, move_source(m).col as int) is Some,
        piece_at(b, move_source(m).row as int, move_source(m).col as int).unwrap().color
            == b.active_color,
{
    match m.move_type {
        MoveType::Standard(_) => {},
        MoveType::Promotion(_) => {},
        MoveType::EnPassant(_) => {},
        MoveType::Castle(cm) => {
            // The flag the castle relies on pins the king to its home square.
            assert(cm.color == b.active_color);
        },
    }
}

/// Whatever piece stands on the scanned square, its generator covered every
/// sound and geometrically real move played from that square.
proof fn lemma_arm_covers(
    b: BoardModel,
    pos: Position,
    curr_piece: Piece,
    emitted: Seq<Move>,
    king_pos: Position,
)
    requires
        wf_board(b),
        valid_pos(pos.row as int, pos.col as int),
        piece_at(b, pos.row as int, pos.col as int) == Some(curr_piece),
        curr_piece.color == b.active_color,
        // What each generator promised of its output.
        curr_piece.piece_type == PieceType::Pawn ==> forall|m: Move|
            pawn_move_from(m, pos) && move_ok(b, m) && movement_ok(b, m)
                ==> emitted.contains(m),
        curr_piece.piece_type == PieceType::King ==> forall|m: Move|
            (m.move_type matches MoveType::Castle(_)) && move_ok(b, m) && movement_ok(b, m)
                ==> emitted.contains(m),
        curr_piece.piece_type == PieceType::King ==> forall|q: Position|
            king_offset(pos, q) && valid_pos(q.row as int, q.col as int) && dest_free_or_enemy(
                b,
                q.row as int,
                q.col as int,
                curr_piece.color,
            ) ==> emitted.contains(#[trigger] standard_move_to(b, pos, curr_piece, q)),
        curr_piece.piece_type == PieceType::Knight ==> forall|q: Position|
            knight_offset(pos, q) && valid_pos(q.row as int, q.col as int) && dest_free_or_enemy(
                b,
                q.row as int,
                q.col as int,
                curr_piece.color,
            ) ==> emitted.contains(#[trigger] standard_move_to(b, pos, curr_piece, q)),
        slider_kind(curr_piece.piece_type) ==> forall|d: Direction, q: Position|
            slider_dirs_ok(curr_piece.piece_type, d) && #[trigger] on_ray_clear(
                b,
                pos.row as int,
                pos.col as int,
                d,
                q.row as int,
                q.col as int,
            ) && dest_free_or_enemy(b, q.row as int, q.col as int, curr_piece.color)
                ==> emitted.contains(standard_move_to(b, pos, curr_piece, q)),
    ensures
        forall|m: Move| #[trigger] pseudo_legal_from(b, m, pos) ==> emitted.contains(m),
{
    assert forall|m: Move| #[trigger] pseudo_legal_from(b, m, pos) implies emitted.contains(m) by {
        match m.move_type {
            MoveType::Standard(s) => {
                assert(s.piece_moved == curr_piece);
                match curr_piece.piece_type {
                    PieceType::Pawn => {
                        assert(pawn_move_from(m, pos));
                    },
                    PieceType::King => {
                        let q = s.after;
                        assert(king_offset(pos, q));
                        assert(m == standard_move_to(b, pos, curr_piece, q));
                    },
                    PieceType::Knight => {
                        let q = s.after;
                        assert(knight_offset(pos, q));
                        assert(m == standard_move_to(b, pos, curr_piece, q));
                    },
                    _ => {
                        let q = s.after;
                        let d = choose|d: Direction|
                            slider_dirs_ok(curr_piece.piece_type, d) && on_ray_clear(
                                b,
                                pos.row as int,
                                pos.col as int,
                                d,
                                q.row as int,
                                q.col as int,
                            );
                        assert(on_ray_clear(
                            b,
                            pos.row as int,
                            pos.col as int,
                            d,
                            q.row as int,
                            q.col as int,
                        ));
                        assert(m == standard_move_to(b, pos, curr_piece, q));
                    },
                }
            },
            MoveType::Castle(cm) => {
                // The flag pins the king to its home square, which is this one.
                assert(piece_at(b, move_source(m).row as int, move_source(m).col as int) == Some(
                    Piece { piece_type: PieceType::King, color: b.active_color },
                ));
                assert(curr_piece.piece_type == PieceType::King);
            },
            MoveType::Promotion(_) => {
                assert(curr_piece.piece_type == PieceType::Pawn);
                assert(pawn_move_from(m, pos));
            },
            MoveType::EnPassant(_) => {
                assert(curr_piece.piece_type == PieceType::Pawn);
                assert(pawn_move_from(m, pos));
            },
        }
    }
}

/// Kinds that ray along directions.
pub open spec fn slider_kind(pt: PieceType) -> bool {
    pt == PieceType::Rook || pt == PieceType::Bishop || pt == PieceType::Queen
}

/// q is one of the eight squares a king reaches from p.
pub open spec fn king_offset(p: Position, q: Position) -> bool {
    &&& p.row as int - 1 <= q.row as int <= p.row as int + 1
    &&& p.col as int - 1 <= q.col as int <= p.col as int + 1
    &&& !(p == q)
}

/// q is one of the eight squares a knight reaches from p.
pub open spec fn knight_offset(p: Position, q: Position) -> bool {
    let pr = p.row as int;
    let pc = p.col as int;
    let qr = q.row as int;
    let qc = q.col as int;
    ||| ((qr == pr - 2 || qr == pr + 2) && (qc == pc + 1 || qc == pc - 1))
    ||| ((qc == pc - 2 || qc == pc + 2) && (qr == pr + 1 || qr == pr - 1))
}

/// The move is a pawn's and is played from p.
pub open spec fn pawn_move_from(m: Move, p: Position) -> bool {
    match m.move_type {
        MoveType::Standard(s) => s.before == p && s.piece_moved.piece_type == PieceType::Pawn,
        MoveType::Promotion(pm) => pm.before == p,
        MoveType::EnPassant(em) => em.before == p,
        MoveType::Castle(_) => false,
    }
}

/// Every king-offset destination that the filter admits yields its move.
proof fn lemma_filter_covers_king(b: BoardModel, pos: Position, piece: Piece, emitted: Seq<Move>)
    requires
        valid_pos(pos.row as int, pos.col as int),
        piece.piece_type == PieceType::King,
        forall|k: int|
            0 <= k < emitted.len() ==> (move_fits(b, #[trigger] emitted[k]) && exists|j: int|
                0 <= j < king_offset_count() && emitted[k] == standard_move_to(
                    b,
                    pos,
                    piece,
                    #[trigger] king_positions_seq(pos)[j],
                )),
        forall|j: int|
            0 <= j < king_offset_count() && valid_pos(
                (#[trigger] king_positions_seq(pos)[j]).row as int,
                king_positions_seq(pos)[j].col as int,
            ) && dest_free_or_enemy(
                b,
                king_positions_seq(pos)[j].row as int,
                king_positions_seq(pos)[j].col as int,
                piece.color,
            ) ==> emitted.contains(standard_move_to(b, pos, piece, king_positions_seq(pos)[j])),
    ensures
        forall|k: int| 0 <= k < emitted.len() ==> pseudo_move_ok(b, #[trigger] emitted[k]),
        forall|q: Position|
            king_offset(pos, q) && valid_pos(q.row as int, q.col as int) && dest_free_or_enemy(
                b,
                q.row as int,
                q.col as int,
                piece.color,
            ) ==> emitted.contains(#[trigger] standard_move_to(b, pos, piece, q)),
{
    assert forall|k: int| 0 <= k < emitted.len() implies pseudo_move_ok(
        b,
        #[trigger] emitted[k],
    ) by {
        let j = choose|j: int|
            0 <= j < king_offset_count() && emitted[k] == standard_move_to(
                b,
                pos,
                piece,
                king_positions_seq(pos)[j],
            );
        let q = king_positions_seq(pos)[j];
        assert(king_offset(pos, q));
        assert(movement_ok(b, emitted[k]));
    }
    assert forall|q: Position|
        king_offset(pos, q) && valid_pos(q.row as int, q.col as int) && dest_free_or_enemy(
            b,
            q.row as int,
            q.col as int,
            piece.color,
        ) implies emitted.contains(#[trigger] standard_move_to(b, pos, piece, q)) by {
        let s = king_positions_seq(pos);
        assert(q == s[0] || q == s[1] || q == s[2] || q == s[3] || q == s[4] || q == s[5] || q
            == s[6] || q == s[7]);
    }
}

/// Every knight-offset destination that the filter admits yields its move.
proof fn lemma_filter_covers_knight(b: BoardModel, pos: Position, piece: Piece, emitted: Seq<Move>)
    requires
        valid_pos(pos.row as int, pos.col as int),
        piece.piece_type == PieceType::Knight,
        forall|k: int|
            0 <= k < emitted.len() ==> (move_fits(b, #[trigger] emitted[k]) && exists|j: int|
                0 <= j < king_offset_count() && emitted[k] == standard_move_to(
                    b,
                    pos,
                    piece,
                    #[trigger] knight_positions_seq(pos)[j],
                )),
        forall|j: int|
            0 <= j < king_offset_count() && valid_pos(
                (#[trigger] knight_positions_seq(pos)[j]).row as int,
                knight_positions_seq(pos)[j].col as int,
            ) && dest_free_or_enemy(
                b,
                knight_positions_seq(pos)[j].row as int,
                knight_positions_seq(pos)[j].col as int,
                piece.color,
            ) ==> emitted.contains(standard_move_to(b, pos, piece, knight_positions_seq(pos)[j])),
    ensures
        forall|k: int| 0 <= k < emitted.len() ==> pseudo_move_ok(b, #[trigger] emitted[k]),
        forall|q: Position|
            knight_offset(pos, q) && valid_pos(q.row as int, q.col as int) && dest_free_or_enemy(
                b,
                q.row as int,
                q.col as int,
                piece.color,
            ) ==> emitted.contains(#[trigger] standard_move_to(b, pos, piece, q)),
{
    assert forall|k: int| 0 <= k < emitted.len() implies pseudo_move_ok(
        b,
        #[trigger] emitted[k],
    ) by {
        let j = choose|j: int|
            0 <= j < king_offset_count() && emitted[k] == standard_move_to(
                b,
                pos,
                piece,
                knight_positions_seq(pos)[j],
            );
        let q = knight_positions_seq(pos)[j];
        assert(knight_offset(pos, q));
        assert(movement_ok(b, emitted[k]));
    }
    assert forall|q: Position|
        knight_offset(pos, q) && valid_pos(q.row as int, q.col as int) && dest_free_or_enemy(
            b,
            q.row as int,
            q.col as int,
            piece.color,
        ) implies emitted.contains(#[trigger] standard_move_to(b, pos, piece, q)) by {
        let s = knight_positions_seq(pos);
        assert(q == s[0] || q == s[1] || q == s[2] || q == s[3] || q == s[4] || q == s[5] || q
            == s[6] || q == s[7]);
    }
}

/// How many offsets a king or knight has.
pub open spec fn king_offset_count() -> int {
    8
}

/// The eight king destinations, as the executable `king_positions` lists
/// them.
pub open spec fn king_positions_seq(pos: Position) -> Seq<Position> {
    seq![
        Position { row: (pos.row - 1) as usize, col: (pos.col - 1) as usize },
        Position { row: (pos.row - 1) as usize, col: pos.col },
        Position { row: (pos.row - 1) as usize, col: (pos.col + 1) as usize },
        Position { row: pos.row, col: (pos.col - 1) as usize },
        Position { row: pos.row, col: (pos.col + 1) as usize },
        Position { row: (pos.row + 1) as usize, col: (pos.col - 1) as usize },
        Position { row: (pos.row + 1) as usize, col: pos.col },
        Position { row: (pos.row + 1) as usize, col: (pos.col + 1) as usize },
    ]
}

/// The eight knight destinations, as the executable `knight_positions` lists
/// them.
pub open spec fn knight_positions_seq(pos: Position) -> Seq<Position> {
    seq![
        Position { row: (pos.row - 2) as usize, col: (pos.col + 1) as usize },
        Position { row: (pos.row - 2) as usize, col: (pos.col - 1) as usize },
        Position { row: (pos.row + 2) as usize, col: (pos.col + 1) as usize },
        Position { row: (pos.row + 2) as usize, col: (pos.col - 1) as usize },
        Position { row: (pos.row - 1) as usize, col: (pos.col - 2) as usize },
        Position { row: (pos.row + 1) as usize, col: (pos.col - 2) as usize },
        Position { row: (pos.row - 1) as usize, col: (pos.col + 2) as usize },
        Position { row: (pos.row + 1) as usize, col: (pos.col + 2) as usize },
    ]
}

/// Keeps the destinations a king or knight can use: on the board and either
/// empty or held by an enemy piece; each kept one becomes a standard move.
/// Every admitted destination's move is in the result.
fn filter_moves(positions: Vec<Position>, board: &BoardState, curr_piece: &Piece, pos: Position) -> (r: Vec<Move>)
    requires
        wf_board(board@),
        valid_pos(pos.row as int, pos.col as int),
        piece_at(board@, pos.row as int, pos.col as int) == Some(*curr_piece),
        curr_piece.color == board@.active_color,
        curr_piece.piece_type != PieceType::Pawn,
        forall|k: int|
            0 <= k < positions@.len() ==> on_grid_pos(#[trigger] positions@[k]),
    ensures
        forall|k: int|
            0 <= k < r@.len() ==> (move_fits(board@, #[trigger] r@[k]) && exists|j: int|
                0 <= j < positions@.len() && r@[k] == standard_move_to(
                    board@,
                    pos,
                    *curr_piece,
                    #[trigger] positions@[j],
                )),
        forall|j: int|
            0 <= j < positions@.len() && valid_pos(
                (#[trigger] positions@[j]).row as int,
                positions@[j].col as int,
            ) && dest_free_or_enemy(
                board@,
                positions@[j].row as int,
                positions@[j].col as int,
                curr_piece.color,
            ) ==> r@.contains(standard_move_to(board@, pos, *curr_piece, positions@[j])),
{
    let mut out: Vec<Move> = Vec::new();
    let mut i: usize = 0;
    while i < positions.len()
        invariant
            wf_board(board@),
            valid_pos(pos.row as int, pos.col as int),
            piece_at(board@, pos.row as int, pos.col as int) == Some(*curr_piece),
            curr_piece.color == board@.active_color,
            curr_piece.piece_type != PieceType::Pawn,
            forall|k: int|
                0 <= k < positions@.len() ==> on_grid_pos(#[trigger] positions@[k]),
            forall|k: int|
                0 <= k < out@.len() ==> (move_fits(board@, #[trigger] out@[k]) && exists|j: int|
                    0 <= j < positions@.len() && out@[k] == standard_move_to(
                        board@,
                        pos,
                        *curr_piece,
                        #[trigger] positions@[j],
                    )),
            forall|j: int|
                0 <= j < i && valid_pos(
                    (#[trigger] positions@[j]).row as int,
                    positions@[j].col as int,
                ) && dest_free_or_enemy(
                    board@,
                    positions@[j].row as int,
                    positions@[j].col as int,
                    curr_piece.color,
                ) ==> out@.contains(standard_move_to(board@, pos, *curr_piece, positions@[j])),
        decreases positions@.len() - i,
    {
        let val = positions[i];
        let ghost out_pre = out@;
        if val.is_valid_position() {
            match board.piece_on(val.row, val.col) {
                Some(piece_captured) => {
                    let opposite = board.active_color.opposite();
                    if piece_captured.color == opposite {
                        out.push(standard(pos, val, *curr_piece, Some(piece_captured)));
                        proof {
                            lemma_contains_after_push(out_pre, out@.last());
                        }
                    }
                },
                None => {
                    out.push(standard(pos, val, *curr_piece, None));
                    proof {
                        lemma_contains_after_push(out_pre, out@.last());
                    }
                },
            }
        }
        proof {
            assert forall|j: int|
                0 <= j < i + 1 && valid_pos(
                    (#[trigger] positions@[j]).row as int,
                    positions@[j].col as int,
                ) && dest_free_or_enemy(
                    board@,
                    positions@[j].row as int,
                    positions@[j].col as int,
                    curr_piece.color,
                ) implies out@.contains(standard_move_to(board@, pos, *curr_piece, positions@[j]))
                by {
                if j < i {
                    assert(out_pre.contains(standard_move_to(board@, pos, *curr_piece, positions@[j])));
                } else {
                    assert(positions@[j] == val);
                }
            }
        }
        i = i + 1;
    }
    out
}

/// The position lies somewhere on the padded grid.
pub open spec fn on_grid_pos(p: Position) -> bool {
    crate::board_model::on_grid(p.row as int, p.col as int)
}

/// Collects the positions of the given side's pieces and of the other
/// side's, in board-scan order (so move generation is deterministic), along
/// with the given side's king position.
pub fn find_pieces(board: &BoardState, color: Color) -> (r: (Vec<Position>, Vec<Position>, Option<
    Position,
>))
    ensures
        forall|k: int|
            0 <= k < r.0@.len() ==> {
                &&& valid_pos((#[trigger] r.0@[k]).row as int, r.0@[k].col as int)
                &&& piece_at(board@, r.0@[k].row as int, r.0@[k].col as int) is Some
                &&& piece_at(board@, r.0@[k].row as int, r.0@[k].col as int).unwrap().color
                    == color
            },
        forall|k: int|
            0 <= k < r.1@.len() ==> {
                &&& valid_pos((#[trigger] r.1@[k]).row as int, r.1@[k].col as int)
                &&& piece_at(board@, r.1@[k].row as int, r.1@[k].col as int) is Some
                &&& piece_at(board@, r.1@[k].row as int, r.1@[k].col as int).unwrap().color
                    != color
            },
        forall|rr: int, cc: int|
            valid_pos(rr, cc) && #[trigger] piece_at(board@, rr, cc) is Some ==> if piece_at(
                board@,
                rr,
                cc,
            ).unwrap().color == color {
                r.0@.contains(Position { row: rr as usize, col: cc as usize })
            } else {
                r.1@.contains(Position { row: rr as usize, col: cc as usize })
            },
        r.2 matches Some(p) ==> king_at(board@, color, p.row as int, p.col as int),
        forall|rr: int, cc: int| king_at(board@, color, rr, cc) ==> r.2 is Some,
        r.0@.len() + r.1@.len() <= 64,
{
    let mut curr_pieces: Vec<Position> = Vec::new();
    let mut other_pieces: Vec<Position> = Vec::new();
    let mut opt_king_pos: Option<Position> = None;

    let mut x: usize = 2;
    while x < 10
        invariant
            2 <= x <= 10,
            forall|k: int|
                0 <= k < curr_pieces@.len() ==> {
                    &&& valid_pos((#[trigger] curr_pieces@[k]).row as int, curr_pieces@[k].col as int)
                    &&& piece_at(board@, curr_pieces@[k].row as int, curr_pieces@[k].col as int) is Some
                    &&& piece_at(
                        board@,
                        curr_pieces@[k].row as int,
                        curr_pieces@[k].col as int,
                    ).unwrap().color == color
                },
            forall|k: int|
                0 <= k < other_pieces@.len() ==> {
                    &&& valid_pos((#[trigger] other_pieces@[k]).row as int, other_pieces@[k].col as int)
                    &&& piece_at(board@, other_pieces@[k].row as int, other_pieces@[k].col as int) is Some
                    &&& piece_at(
                        board@,
                        other_pieces@[k].row as int,
                        other_pieces@[k].col as int,
                    ).unwrap().color != color
                },
            forall|rr: int, cc: int|
                valid_pos(rr, cc) && rr < x && #[trigger] piece_at(board@, rr, cc) is Some
                    ==> if piece_at(board@, rr, cc).unwrap().color == color {
                    curr_pieces@.contains(Position { row: rr as usize, col: cc as usize })
                } else {
                    other_pieces@.contains(Position { row: rr as usize, col: cc as usize })
                },
            opt_king_pos matches Some(p) ==> king_at(board@, color, p.row as int, p.col as int),
            forall|rr: int, cc: int|
                king_at(board@, color, rr, cc) && rr < x ==> opt_king_pos is Some,
            curr_pieces@.len() + other_pieces@.len() <= (x - 2) * 8,
        decreases 10 - x,
    {
        let mut y: usize = 2;
        while y < 10
            invariant
                2 <= x < 10,
                2 <= y <= 10,
                forall|k: int|
                    0 <= k < curr_pieces@.len() ==> {
                        &&& valid_pos(
                            (#[trigger] curr_pieces@[k]).row as int,
                            curr_pieces@[k].col as int,
                        )
                        &&& piece_at(board@, curr_pieces@[k].row as int, curr_pieces@[k].col as int) is Some
                        &&& piece_at(
                            board@,
                            curr_pieces@[k].row as int,
                            curr_pieces@[k].col as int,
                        ).unwrap().color == color
                    },
                forall|k: int|
                    0 <= k < other_pieces@.len() ==> {
                        &&& valid_pos(
                            (#[trigger] other_pieces@[k]).row as int,
                            other_pieces@[k].col as int,
                        )
                        &&& piece_at(board@, other_pieces@[k].row as int, other_pieces@[k].col as int) is Some
                        &&& piece_at(
                            board@,
                            other_pieces@[k].row as int,
                            other_pieces@[k].col as int,
                        ).unwrap().color != color
                    },
                forall|rr: int, cc: int|
                    valid_pos(rr, cc) && (rr < x || (rr == x && cc < y)) && #[trigger] piece_at(
                        board@,
                        rr,
                        cc,
                    ) is Some ==> if piece_at(board@, rr, cc).unwrap().color == color {
                        curr_pieces@.contains(Position { row: rr as usize, col: cc as usize })
                    } else {
                        other_pieces@.contains(Position { row: rr as usize, col: cc as usize })
                    },
                opt_king_pos matches Some(p) ==> king_at(board@, color, p.row as int, p.col as int),
                forall|rr: int, cc: int|
                    king_at(board@, color, rr, cc) && (rr < x || (rr == x && cc < y))
                        ==> opt_king_pos is Some,
                curr_pieces@.len() + other_pieces@.len() <= (x - 2) * 8 + (y - 2),
            decreases 10 - y,
        {
            let ghost old_curr = curr_pieces@;
            let ghost old_other = other_pieces@;
            match board.piece_on(x, y) {
                Some(curr_piece) => {
                    let p = Position { row: x, col: y };
                    if curr_piece.color == color {
                        curr_pieces.push(p);
                        if curr_piece.piece_type == PieceType::King {
                            opt_king_pos = Some(p);
                        }
                    } else {
                        other_pieces.push(p);
                    }
                },
                None => {},
            }
            proof {
                let nx = x as int;
                let ny = y as int;
                assert forall|v: Position| old_curr.contains(v) implies curr_pieces@.contains(
                    v,
                ) by {
                    let i = choose|i: int| 0 <= i < old_curr.len() && old_curr[i] == v;
                    assert(curr_pieces@[i] == v);
                }
                assert forall|v: Position| old_other.contains(v) implies other_pieces@.contains(
                    v,
                ) by {
                    let i = choose|i: int| 0 <= i < old_other.len() && old_other[i] == v;
                    assert(other_pieces@[i] == v);
                }
                assert forall|rr: int, cc: int|
                    valid_pos(rr, cc) && (rr < nx || (rr == nx && cc < ny + 1)) && #[trigger]
                    piece_at(board@, rr, cc) is Some implies if piece_at(
                        board@,
                        rr,
                        cc,
                    ).unwrap().color == color {
                    curr_pieces@.contains(Position { row: rr as usize, col: cc as usize })
                } else {
                    other_pieces@.contains(Position { row: rr as usize, col: cc as usize })
                } by {
                    let q = Position { row: rr as usize, col: cc as usize };
                    if rr == nx && cc == ny {
                        if piece_at(board@, rr, cc).unwrap().color == color {
                            assert(curr_pieces@[curr_pieces@.len() - 1] == q);
                        } else {
                            assert(other_pieces@[other_pieces@.len() - 1] == q);
                        }
                    } else {
                        if piece_at(board@, rr, cc).unwrap().color == color {
                            assert(old_curr.contains(q));
                        } else {
                            assert(old_other.contains(q));
                        }
                    }
                }
            }
            y = y + 1;
        }
        x = x + 1;
    }

    (curr_pieces, other_pieces, opt_king_pos)
}

/// How a position stands once no legal move is left: still being played,
/// won by checkmate (the color carried is the winner), or drawn by
/// stalemate.
pub enum Outcome {
    Ongoing(Vec<Move>),
    Checkmate(Color),
    Stalemate,
}

/// Classifies the position for the side to move: its legal moves when it has
/// any; otherwise checkmate for the other side when its king is attacked,
/// and stalemate when it is not.
pub fn game_outcome(board: &BoardState) -> (r: Outcome)
    requires
        wf_board(board@),
    ensures
        r matches Outcome::Ongoing(ms) ==> ms@.len() > 0 && all_legal(board@, ms@)
            && all_legal_present(board@, ms@),
        r is Checkmate ==> no_legal_move(board@),
        r is Stalemate ==> no_legal_move(board@),
        r matches Outcome::Checkmate(c) ==> c == other(board@.active_color) && forall|
            kr: int,
            kc: int,
        |
            king_at(board@, board@.active_color, kr, kc) ==> square_attacked(
                board@,
                board@.active_color,
                kr,
                kc,
            ),
        r is Stalemate ==> forall|kr: int, kc: int|
            king_at(board@, board@.active_color, kr, kc) ==> !square_attacked(
                board@,
                board@.active_color,
                kr,
                kc,
            ),
{
    let moves = gen_all_moves(board, board.active_color);
    if moves.len() > 0 {
        Outcome::Ongoing(moves)
    } else {
        proof {
            assert forall|m: Move| !move_legal(board@, m) by {
                if move_legal(board@, m) {
                    assert(moves@.contains(m));
                }
            }
        }
        if board.is_in_check(board.active_color, None) {
            Outcome::Checkmate(board.active_color.opposite())
        } else {
            Outcome::Stalemate
        }
    }
}

/// Emits the castling moves available to `color`: the matching flag must be
/// set, the king must not be in check, the squares between king and rook
/// must be empty, and the king may not cross or land on an attacked square.
/// Exactly the castle moves meeting those conditions come out.
pub fn generate_castle_moves(king_pos: &Position, castle_rights: &CastleRights, color: Color, board:
    &BoardState) -> (r: Vec<Move>)
    requires
        wf_board(board@),
        color == board@.active_color,
        king_at(board@, color, king_pos.row as int, king_pos.col as int),
        *castle_rights == board@.castle_rights,
    ensures
        forall|k: int|
            0 <= k < r@.len() ==> move_ok(board@, #[trigger] r@[k]) && movement_ok(
                board@,
                r@[k],
            ),
        forall|m: Move|
            (m.move_type matches MoveType::Castle(_)) && move_ok(board@, m) && movement_ok(
                board@,
                m,
            ) ==> r@.contains(m),
        forall|k: int| 0 <= k < r@.len() ==> is_castle_of(#[trigger] r@[k], color),
        r@.no_duplicates(),
{
    let mut castle_moves: Vec<Move> = Vec::new();

    let ghost home_row: int = if color == Color::White {
        9
    } else {
        2
    };

    let in_check_now = board.is_in_check(color, Some(*king_pos));

    let kingside_flag = match color {
        Color::White => castle_rights.can_castle_white_kingside,
        Color::Black => castle_rights.can_castle_black_kingside,
    };
    let queenside_flag = match color {
        Color::White => castle_rights.can_castle_white_queenside,
        Color::Black => castle_rights.can_castle_black_queenside,
    };

    proof {
        // Any set flag pins the king to its home square, so the transit
        // squares below really are the ones beside the home square.
        if kingside_flag || queenside_flag {
            assert(king_at(board@, color, home_row, 6));
            assert(king_pos.row as int == home_row && king_pos.col == 6);
        }
    }

    let mut kingside_done = false;
    let mut queenside_done = false;

    if kingside_flag && !in_check_now {
        let t1 = king_pos.right();
        let t2 = t1.right();
        let mut king_side = true;
        if board.piece_on(t1.row, t1.col).is_some() || board.is_in_check(color, Some(t1)) {
            king_side = false;
        }
        if board.piece_on(t2.row, t2.col).is_some() || board.is_in_check(color, Some(t2)) {
            king_side = false;
        }
        if king_side {
            let ghost pre = castle_moves@;
            castle_moves.push(castle(true, color));
            proof {
                lemma_contains_after_push(pre, castle_moves@.last());
            }
            kingside_done = true;
        }
    }

    if queenside_flag && !in_check_now {
        let t1 = king_pos.left();
        let t2 = t1.left();
        let t3 = t2.left();
        let mut queen_side = true;
        if board.piece_on(t1.row, t1.col).is_some() || board.is_in_check(color, Some(t1)) {
            queen_side = false;
        }
        if board.piece_on(t2.row, t2.col).is_some() || board.is_in_check(color, Some(t2)) {
            queen_side = false;
        }
        if board.piece_on(t3.row, t3.col).is_some() {
            queen_side = false;
        }
        if queen_side {
            let ghost pre = castle_moves@;
            castle_moves.push(castle(false, color));
            proof {
                lemma_contains_after_push(pre, castle_moves@.last());
            }
            queenside_done = true;
        }
    }

    proof {
        assert forall|m: Move|
            (m.move_type matches MoveType::Castle(_)) && move_ok(board@, m) && movement_ok(
                board@,
                m,
            ) implies castle_moves@.contains(m) by {
            match m.move_type {
                MoveType::Castle(cm) => {
                    assert(cm.color == color);
                    if cm.is_kingside {
                        assert(kingside_done);
                        assert(m == castle_move_value(true, color));
                    } else {
                        assert(queenside_done);
                        assert(m == castle_move_value(false, color));
                    }
                },
                _ => {},
            }
        }
    }

    castle_moves
}

/// The move is a castle move of the given color.
pub open spec fn is_castle_of(m: Move, color: Color) -> bool {
    m.move_type matches MoveType::Castle(cm) && cm.color == color
}

/// The castle move record for one side and color.
pub open spec fn castle_move_value(is_kingside: bool, color: Color) -> Move {
    Move {
        move_type: MoveType::Castle(crate::chess_move::CastleMove { is_kingside, color }),
        piece_captured: None,
    }
}

/// Emits a pawn's moves: single push, double push from its home rank,
/// diagonal captures, the en-passant capture onto the board's en-passant
/// square, and—from the seventh rank—promotions to each of queen, rook,
/// bishop and knight. Every sound, geometrically real pawn move from `pos`
/// comes out.
#[verifier::rlimit(100)]
pub fn generate_pawn_moves(board: &BoardState, curr_pawn: Piece, pos: &Position) -> (r: Vec<Move>)
    requires
        wf_board(board@),
        valid_pos(pos.row as int, pos.col as int),
        piece_at(board@, pos.row as int, pos.col as int) == Some(curr_pawn),
        curr_pawn.piece_type == PieceType::Pawn,
        curr_pawn.color == board@.active_color,
    ensures
        forall|k: int| 0 <= k < r@.len() ==> pseudo_move_ok(board@, #[trigger] r@[k]),
        forall|m: Move|
            #[trigger] pawn_move_from(m, *pos) && move_ok(board@, m) && movement_ok(board@, m)
                ==> r@.contains(m),
{
    let mut pawn_moves: Vec<Move> = Vec::new();
    assert(curr_pawn.color == Color::White ==> pos.row >= 3);
    assert(curr_pawn.color == Color::Black ==> pos.row <= 8);

    let (first_move, is_promotion) = generate_pawn_permissions(pos, &curr_pawn.color);
    let (right_up, left_up, one_up, two_up, en_passant_left, en_passant_right) =
        generate_pawn_moves_helper(pos, &curr_pawn.color);

    if !is_promotion {
        // One square forward, onto an empty square.
        if board.piece_on(one_up.row, one_up.col).is_none() {
            let ghost pre = pawn_moves@;
            pawn_moves.push(standard(*pos, one_up, curr_pawn, None));
            proof {
                lemma_contains_after_push(pre, pawn_moves@.last());
            }
        }
        // Two squares forward from the home rank, over two empty squares.
        if first_move && board.piece_on(two_up.row, two_up.col).is_none() && board.piece_on(
            one_up.row,
            one_up.col,
        ).is_none() {
            let ghost pre = pawn_moves@;
            pawn_moves.push(standard(*pos, two_up, curr_pawn, None));
            proof {
                lemma_contains_after_push(pre, pawn_moves@.last());
            }
        }
        // The two diagonal captures.
        match board.piece_on(right_up.row, right_up.col) {
            Some(capture) => {
                if capture.color == curr_pawn.color.opposite() {
                    let ghost pre = pawn_moves@;
                    pawn_moves.push(standard(*pos, right_up, curr_pawn, Some(capture)));
                    proof {
                        lemma_contains_after_push(pre, pawn_moves@.last());
                    }
                }
            },
            None => {},
        }
        match board.piece_on(left_up.row, left_up.col) {
            Some(capture) => {
                if capture.color == curr_pawn.color.opposite() {
                    let ghost pre = pawn_moves@;
                    pawn_moves.push(standard(*pos, left_up, curr_pawn, Some(capture)));
                    proof {
                        lemma_contains_after_push(pre, pawn_moves@.last());
                    }
                }
            },
            None => {},
        }
        // En passant: the board's en-passant square must be one of the two
        // diagonally forward squares, empty, with the enemy pawn beside us.
        if let Some(en_passant_pos) = board.en_passant {
            let captured = Piece { piece_type: PieceType::Pawn, color: curr_pawn.color.opposite() };
            if en_passant_pos.row == en_passant_left.row && en_passant_pos.col
                == en_passant_left.col {
                let victim = pos.left();
                if board.piece_on(en_passant_left.row, en_passant_left.col).is_none() {
                    match board.piece_on(victim.row, victim.col) {
                        Some(p) => {
                            if p.piece_type == PieceType::Pawn && p.color
                                == curr_pawn.color.opposite() {
                                let ghost pre = pawn_moves@;
                                pawn_moves.push(
                                    en_passant(*pos, en_passant_left, victim, Some(captured)),
                                );
                                proof {
                                    lemma_contains_after_push(pre, pawn_moves@.last());
                                }
                            }
                        },
                        None => {},
                    }
                }
            } else if en_passant_pos.row == en_passant_right.row && en_passant_pos.col
                == en_passant_right.col {
                let victim = pos.right();
                if board.piece_on(en_passant_right.row, en_passant_right.col).is_none() {
                    match board.piece_on(victim.row, victim.col) {
                        Some(p) => {
                            if p.piece_type == PieceType::Pawn && p.color
                                == curr_pawn.color.opposite() {
                                let ghost pre = pawn_moves@;
                                pawn_moves.push(
                                    en_passant(*pos, en_passant_right, victim, Some(captured)),
                                );
                                proof {
                                    lemma_contains_after_push(pre, pawn_moves@.last());
                                }
                            }
                        },
                        None => {},
                    }
                }
            }
        }
    } else {
        let kinds: [PieceType; 4] = [
            PieceType::Queen,
            PieceType::Rook,
            PieceType::Bishop,
            PieceType::Knight,
        ];
        let mut ki: usize = 0;
        while ki < 4
            invariant
                wf_board(board@),
                valid_pos(pos.row as int, pos.col as int),
                piece_at(board@, pos.row as int, pos.col as int) == Some(curr_pawn),
                curr_pawn.piece_type == PieceType::Pawn,
                curr_pawn.color == board@.active_color,
                (curr_pawn.color == Color::White && pos.row == 3) || (curr_pawn.color
                    == Color::Black && pos.row == 8),
                one_up.row as int == pos.row as int + pawn_row_step(curr_pawn.color),
                one_up.col == pos.col,
                right_up.row == one_up.row && right_up.col as int == pos.col as int + 1,
                left_up.row == one_up.row && left_up.col as int == pos.col as int - 1,
                kinds@[0] == PieceType::Queen && kinds@[1] == PieceType::Rook && kinds@[2]
                    == PieceType::Bishop && kinds@[3] == PieceType::Knight,
                forall|k: int| 0 <= k < pawn_moves@.len() ==> pseudo_move_ok(board@, #[trigger] pawn_moves@[k]),
                forall|m: Move|
                    #[trigger] pawn_move_from(m, *pos) && move_ok(board@, m) && movement_ok(
                        board@,
                        m,
                    ) && (m.move_type matches MoveType::Promotion(pm) && exists|j: int|
                        0 <= j < ki && kinds@[j] == pm.promote_to.piece_type)
                        ==> pawn_moves@.contains(m),
            decreases 4 - ki,
        {
            let new_piece = Piece { piece_type: kinds[ki], color: curr_pawn.color };
            let ghost round_pre = pawn_moves@;
            if board.piece_on(one_up.row, one_up.col).is_none() {
                let ghost pre = pawn_moves@;
                pawn_moves.push(promotion(*pos, one_up, new_piece, None));
                proof {
                    lemma_contains_after_push(pre, pawn_moves@.last());
                }
            }
            match board.piece_on(right_up.row, right_up.col) {
                Some(capture) => {
                    if capture.color == curr_pawn.color.opposite() {
                        let ghost pre = pawn_moves@;
                        pawn_moves.push(promotion(*pos, right_up, new_piece, Some(capture)));
                        proof {
                            lemma_contains_after_push(pre, pawn_moves@.last());
                        }
                    }
                },
                None => {},
            }
            match board.piece_on(left_up.row, left_up.col) {
                Some(capture) => {
                    if capture.color == curr_pawn.color.opposite() {
                        let ghost pre = pawn_moves@;
                        pawn_moves.push(promotion(*pos, left_up, new_piece, Some(capture)));
                        proof {
                            lemma_contains_after_push(pre, pawn_moves@.last());
                        }
                    }
                },
                None => {},
            }
            proof {
                assert forall|m: Move|
                    #[trigger] pawn_move_from(m, *pos) && move_ok(board@, m) && movement_ok(
                        board@,
                        m,
                    ) && (m.move_type matches MoveType::Promotion(pm) && exists|j: int|
                        0 <= j < ki + 1 && kinds@[j] == pm.promote_to.piece_type) implies
                    pawn_moves@.contains(m) by {
                    match m.move_type {
                        MoveType::Promotion(pm) => {
                            let j = choose|j: int|
                                0 <= j < ki + 1 && kinds@[j] == pm.promote_to.piece_type;
                            if j < ki {
                                assert(round_pre.contains(m));
                            } else {
                                assert(pm.promote_to == new_piece);
                            }
                        },
                        _ => {},
                    }
                }
            }
            ki = ki + 1;
        }
    }

    proof {
        assert forall|m: Move|
            #[trigger] pawn_move_from(m, *pos) && move_ok(board@, m) && movement_ok(board@, m)
                implies pawn_moves@.contains(m) by {
            match m.move_type {
                MoveType::Standard(s) => {
                    assert(s.piece_moved == curr_pawn);
                    assert(!is_promotion);
                },
                MoveType::Promotion(pm) => {
                    assert(is_promotion);
                    assert(pm.promote_to.piece_type == PieceType::Queen || pm.promote_to.piece_type
                        == PieceType::Rook || pm.promote_to.piece_type == PieceType::Bishop
                        || pm.promote_to.piece_type == PieceType::Knight);
                },
                MoveType::EnPassant(em) => {
                    assert(!is_promotion);
                    assert(board@.en_passant == Some(em.after));
                },
                MoveType::Castle(_) => {},
            }
        }
    }

    pawn_moves
}

/// Row change of a single forward pawn step for the given color.
pub open spec fn pawn_row_step(color: Color) -> int {
    match color {
        Color::White => -1,
        Color::Black => 1,
    }
}

/// The six squares a pawn move can involve, in the pawn's forward direction:
/// the two diagonal captures, the single and double pushes, and the two
/// en-passant destinations.
pub fn generate_pawn_moves_helper(pos: &Position, color: &Color) -> (r: (
    Position,
    Position,
    Position,
    Position,
    Position,
    Position,
))
    requires
        2 <= pos.row,
        pos.row + 2 <= usize::MAX,
        1 <= pos.col,
        pos.col + 1 <= usize::MAX,
    ensures
        r.0.row as int == pos.row as int + pawn_row_step(*color) && r.0.col == pos.col + 1,
        r.1.row as int == pos.row as int + pawn_row_step(*color) && r.1.col == pos.col - 1,
        r.2.row as int == pos.row as int + pawn_row_step(*color) && r.2.col == pos.col,
        r.3.row as int == pos.row as int + 2 * pawn_row_step(*color) && r.3.col == pos.col,
        r.4 == r.1,
        r.5 == r.0,
{
    match color {
        Color::White => {
            (
                pos.up().right(),
                pos.up().left(),
                pos.up(),
                pos.up().up(),
                pos.up().left(),
                pos.up().right(),
            )
        },
        Color::Black => {
            (
                pos.down().right(),
                pos.down().left(),
                pos.down(),
                pos.down().down(),
                pos.down().left(),
                pos.down().right(),
            )
        },
    }
}

/// Whether a pawn on this square still stands on its home rank (and so may
/// double-push) and whether its next forward step promotes.
pub fn generate_pawn_permissions(pos: &Position, color: &Color) -> (r: (bool, bool))
    ensures
        r.0 == (pos.row == if *color == Color::White {
            8int
        } else {
            3int
        }),
        r.1 == (pos.row == if *color == Color::White {
            3int
        } else {
            8int
        }),
{
    match color {
        Color::White => (pos.row == 8, pos.row == 3),
        Color::Black => (pos.row == 3, pos.row == 8),
    }
}

/// All ray moves of a sliding piece: every direction the piece slides in,
/// walked to the first blocker.
fn slider_moves(pos: Position, piece: Piece, board: &BoardState) -> (r: Vec<Move>)
    requires
        wf_board(board@),
        valid_pos(pos.row as int, pos.col as int),
        piece_at(board@, pos.row as int, pos.col as int) == Some(piece),
        piece.color == board@.active_color,
        slider_kind(piece.piece_type),
    ensures
        forall|k: int| 0 <= k < r@.len() ==> pseudo_move_ok(board@, #[trigger] r@[k]),
        forall|d: Direction, q: Position|
            slider_dirs_ok(piece.piece_type, d) && #[trigger] on_ray_clear(
                board@,
                pos.row as int,
                pos.col as int,
                d,
                q.row as int,
                q.col as int,
            ) && dest_free_or_enemy(board@, q.row as int, q.col as int, piece.color)
                ==> r@.contains(standard_move_to(board@, pos, piece, q)),
{
    let dirs: [Direction; 8] = [
        Direction::Right,
        Direction::Left,
        Direction::Up,
        Direction::Down,
        Direction::UpRight,
        Direction::UpLeft,
        Direction::DownRight,
        Direction::DownLeft,
    ];
    let mut out: Vec<Move> = Vec::new();
    let mut di: usize = 0;
    while di < 8
        invariant
            wf_board(board@),
            valid_pos(pos.row as int, pos.col as int),
            piece_at(board@, pos.row as int, pos.col as int) == Some(piece),
            piece.color == board@.active_color,
            slider_kind(piece.piece_type),
            dirs@[0] is Right && dirs@[1] is Left && dirs@[2] is Up && dirs@[3] is Down
                && dirs@[4] is UpRight && dirs@[5] is UpLeft && dirs@[6] is DownRight
                && dirs@[7] is DownLeft,
            forall|k: int| 0 <= k < out@.len() ==> pseudo_move_ok(board@, #[trigger] out@[k]),
            forall|d: Direction, q: Position|
                (exists|j: int| 0 <= j < di && dirs@[j] == d) && slider_dirs_ok(
                    piece.piece_type,
                    d,
                ) && #[trigger] on_ray_clear(
                    board@,
                    pos.row as int,
                    pos.col as int,
                    d,
                    q.row as int,
                    q.col as int,
                ) && dest_free_or_enemy(board@, q.row as int, q.col as int, piece.color)
                    ==> out@.contains(standard_move_to(board@, pos, piece, q)),
        decreases 8 - di,
    {
        let d = dirs[di];
        let use_dir = match piece.piece_type {
            PieceType::Rook => di < 4,
            PieceType::Bishop => di >= 4,
            _ => true,
        };
        let ghost out_pre = out@;
        if use_dir {
            proof {
                assert(slider_dirs_ok(piece.piece_type, dirs@[di as int]));
            }
            let ghost pre = out@;
            let mut ray = move_in_direction(pos, &d, piece, board);
            let ghost rayv = ray@;
            out.append(&mut ray);
            proof {
                lemma_contains_after_append(pre, rayv);
                assert forall|k: int| 0 <= k < out@.len() implies pseudo_move_ok(
                    board@,
                    #[trigger] out@[k],
                ) by {
                    if k >= pre.len() {
                        assert(out@[k] == rayv[k - pre.len()]);
                    }
                }
            }
        } else {
            proof {
                assert(!slider_dirs_ok(piece.piece_type, dirs@[di as int]));
            }
        }
        proof {
            assert forall|d2: Direction, q: Position|
                (exists|j: int| 0 <= j < di + 1 && dirs@[j] == d2) && slider_dirs_ok(
                    piece.piece_type,
                    d2,
                ) && #[trigger] on_ray_clear(
                    board@,
                    pos.row as int,
                    pos.col as int,
                    d2,
                    q.row as int,
                    q.col as int,
                ) && dest_free_or_enemy(board@, q.row as int, q.col as int, piece.color) implies
                out@.contains(standard_move_to(board@, pos, piece, q)) by {
                let j = choose|j: int| 0 <= j < di + 1 && dirs@[j] == d2;
                if j < di {
                    assert(out_pre.contains(standard_move_to(board@, pos, piece, q)));
                } else {
                    assert(dirs@[di as int] == d2);
                }
            }
        }
        di = di + 1;
    }
    proof {
        assert forall|d: Direction, q: Position|
            slider_dirs_ok(piece.piece_type, d) && #[trigger] on_ray_clear(
                board@,
                pos.row as int,
                pos.col as int,
                d,
                q.row as int,
                q.col as int,
            ) && dest_free_or_enemy(board@, q.row as int, q.col as int, piece.color) implies
            out@.contains(standard_move_to(board@, pos, piece, q)) by {
            assert(dirs@[0] == d || dirs@[1] == d || dirs@[2] == d || dirs@[3] == d || dirs@[4]
                == d || dirs@[5] == d || dirs@[6] == d || dirs@[7] == d) by {
                match d {
                    Direction::Right => assert(dirs@[0] == d),
                    Direction::Left => assert(dirs@[1] == d),
                    Direction::Up => assert(dirs@[2] == d),
                    Direction::Down => assert(dirs@[3] == d),
                    Direction::UpRight => assert(dirs@[4] == d),
                    Direction::UpLeft => assert(dirs@[5] == d),
                    Direction::DownRight => assert(dirs@[6] == d),
                    Direction::DownLeft => assert(dirs@[7] == d),
                }
            }
        }
    }
    out
}

/// Walks from `pos` in one direction, emitting a move onto every empty
/// square, plus a capture when the ray ends on an enemy piece; a friendly
/// piece or the board edge ends the ray with nothing more. Every reachable
/// empty or enemy square along the ray yields its move.
#[verifier::rlimit(100)]
pub fn move_in_direction(pos: Position, dir: &Direction, piece: Piece, board: &BoardState) -> (r:
    Vec<Move>)
    requires
        wf_board(board@),
        valid_pos(pos.row as int, pos.col as int),
        piece_at(board@, pos.row as int, pos.col as int) == Some(piece),
        piece.color == board@.active_color,
        piece.piece_type == PieceType::Rook || piece.piece_type == PieceType::Bishop
            || piece.piece_type == PieceType::Queen,
        slider_dirs_ok(piece.piece_type, *dir),
    ensures
        forall|k: int| 0 <= k < r@.len() ==> pseudo_move_ok(board@, #[trigger] r@[k]),
        forall|k: int| 0 <= k < r@.len() ==> ray_element(board@, pos, piece, *dir, #[trigger] r@[k]),
        forall|q: Position|
            #[trigger] on_ray_clear(
                board@,
                pos.row as int,
                pos.col as int,
                *dir,
                q.row as int,
                q.col as int,
            ) && dest_free_or_enemy(board@, q.row as int, q.col as int, piece.color)
                ==> r@.contains(standard_move_to(board@, pos, piece, q)),
{
    let ghost b = board@;
    let ghost d = *dir;
    let ghost pr = pos.row as int;
    let ghost pc = pos.col as int;
    let mut valid_moves: Vec<Move> = Vec::new();
    let ghost mut prev = pos;
    let mut next_pos = pos.next_position(dir);

    proof {
        if valid_pos(next_pos.row as int, next_pos.col as int) {
            assert(on_ray_clear(b, pr, pc, d, next_pos.row as int, next_pos.col as int));
        }
    }

    while board.piece_on(next_pos.row, next_pos.col).is_none() && next_pos.is_valid_position()
        invariant
            b == board@,
            d == *dir,
            pr == pos.row as int,
            pc == pos.col as int,
            wf_board(b),
            valid_pos(pr, pc),
            piece_at(b, pr, pc) == Some(piece),
            piece.color == b.active_color,
            piece.piece_type == PieceType::Rook || piece.piece_type == PieceType::Bishop
                || piece.piece_type == PieceType::Queen,
            slider_dirs_ok(piece.piece_type, d),
            valid_pos(prev.row as int, prev.col as int),
            next_pos.row as int == prev.row as int + row_delta(d),
            next_pos.col as int == prev.col as int + col_delta(d),
            crate::board_model::on_grid(next_pos.row as int, next_pos.col as int),
            valid_pos(next_pos.row as int, next_pos.col as int) ==> on_ray_clear(
                b,
                pr,
                pc,
                d,
                next_pos.row as int,
                next_pos.col as int,
            ),
            forall|k: int| 0 <= k < valid_moves@.len() ==> pseudo_move_ok(b, #[trigger] valid_moves@[k]),
            forall|k: int|
                0 <= k < valid_moves@.len() ==> ray_element(b, pos, piece, d, #[trigger] valid_moves@[k]),
            forall|qr: int, qc: int|
                #[trigger] on_ray_clear(b, pr, pc, d, qr, qc) ==> ((qr == next_pos.row as int && qc
                    == next_pos.col as int) || (piece_at(b, qr, qc) is None
                    && valid_moves@.contains(
                    standard_move_to(
                        b,
                        pos,
                        piece,
                        Position { row: qr as usize, col: qc as usize },
                    ),
                )) || on_ray_clear(b, next_pos.row as int, next_pos.col as int, d, qr, qc)),
        decreases crate::board_model::ray_measure(next_pos.row as int, next_pos.col as int, d),
    {
        let ghost pre = valid_moves@;
        valid_moves.push(standard(pos, next_pos, piece, None));
        proof {
            lemma_contains_after_push(pre, valid_moves@.last());
            assert(on_ray_clear(b, pr, pc, d, next_pos.row as int, next_pos.col as int));
            assert(movement_ok(b, valid_moves@.last()));
            assert(ray_element(b, pos, piece, d, valid_moves@.last())) by {
                assert(valid_moves@.last() == standard_move_to(b, pos, piece, next_pos));
            }
        }
        let ghost old_next = next_pos;
        proof {
            prev = next_pos;
        }
        next_pos = next_pos.next_position(dir);
        proof {
            if valid_pos(next_pos.row as int, next_pos.col as int) {
                crate::board_model::lemma_ray_extend(
                    b,
                    pr,
                    pc,
                    d,
                    old_next.row as int,
                    old_next.col as int,
                );
            }
            assert forall|qr: int, qc: int| #[trigger] on_ray_clear(b, pr, pc, d, qr, qc) implies ((
            qr == next_pos.row as int && qc == next_pos.col as int) || (piece_at(b, qr, qc) is None
                && valid_moves@.contains(
                standard_move_to(b, pos, piece, Position { row: qr as usize, col: qc as usize }),
            )) || on_ray_clear(b, next_pos.row as int, next_pos.col as int, d, qr, qc)) by {
                if qr == old_next.row as int && qc == old_next.col as int {
                    lemma_ray_dest_valid(b, pr, pc, d, qr, qc);
                } else if piece_at(b, qr, qc) is None && pre.contains(
                    standard_move_to(
                        b,
                        pos,
                        piece,
                        Position { row: qr as usize, col: qc as usize },
                    ),
                ) {
                } else {
                    assert(on_ray_clear(b, old_next.row as int, old_next.col as int, d, qr, qc));
                }
            }
        }
    }

    let blocker = board.piece_on(next_pos.row, next_pos.col);
    let ghost before_capture = valid_moves@;
    match blocker {
        Some(piece_captured) => {
            if piece_captured.color == piece.color.opposite() {
                valid_moves.push(standard(pos, next_pos, piece, Some(piece_captured)));
                proof {
                    lemma_contains_after_push(before_capture, valid_moves@.last());
                    // An occupied cell lies on the playable board.
                    assert(valid_pos(next_pos.row as int, next_pos.col as int));
                    assert(on_ray_clear(b, pr, pc, d, next_pos.row as int, next_pos.col as int));
                    assert(movement_ok(b, valid_moves@.last()));
                    assert(ray_element(b, pos, piece, d, valid_moves@.last())) by {
                        assert(valid_moves@.last() == standard_move_to(b, pos, piece, next_pos));
                    }
                }
            }
        },
        None => {},
    }

    proof {
        assert forall|q: Position|
            #[trigger] on_ray_clear(b, pr, pc, d, q.row as int, q.col as int) && dest_free_or_enemy(
                b,
                q.row as int,
                q.col as int,
                piece.color,
            ) implies valid_moves@.contains(standard_move_to(b, pos, piece, q)) by {
            let qr = q.row as int;
            let qc = q.col as int;
            lemma_ray_dest_valid(b, pr, pc, d, qr, qc);
            let nr = next_pos.row as int;
            let nc = next_pos.col as int;
            if qr == nr && qc == nc {
                // The blocker square itself: the capture (or nothing, when
                // the loop stopped at the border, which a valid q excludes).
                assert(piece_at(b, nr, nc) is Some);
                assert(q == next_pos);
            } else if piece_at(b, qr, qc) is None && before_capture.contains(
                standard_move_to(b, pos, piece, Position { row: qr as usize, col: qc as usize }),
            ) {
                assert(Position { row: qr as usize, col: qc as usize } == q);
            } else {
                // q would lie strictly beyond the stopping square: impossible.
                assert(on_ray_clear(b, nr, nc, d, qr, qc));
                if valid_pos(nr, nc) {
                    // The loop stopped on a piece; a clear ray cannot pass it.
                    assert(piece_at(b, nr, nc) is Some);
                    lemma_ray_split(b, pr, pc, d, qr, qc, nr, nc);
                    lemma_ray_monotone(b, nr, nc, d, qr, qc);
                    lemma_ray_monotone(b, qr, qc, d, nr, nc);
                    assert(false);
                } else {
                    // The loop left the board; the ray cannot re-enter.
                    assert(!valid_pos(nr + row_delta(d), nc + col_delta(d)));
                    assert(false);
                }
            }
        }
    }

    valid_moves
}

/// The eight squares a knight reaches from the given position.
pub fn knight_positions(pos: Position) -> (r: Vec<Position>)
    requires
        2 <= pos.row,
        2 <= pos.col,
        pos.row + 2 <= usize::MAX,
        pos.col + 2 <= usize::MAX,
    ensures
        r@ == knight_positions_seq(pos),
        r@.len() == 8,
{
    let r = vec![
        pos.up().up().right(),
        pos.up().up().left(),
        pos.down().down().right(),
        pos.down().down().left(),
        pos.left().left().up(),
        pos.left().left().down(),
        pos.right().right().up(),
        pos.right().right().down(),
    ];
    proof {
        assert(r@ =~= knight_positions_seq(pos));
    }
    r
}

/// The eight squares adjacent to the given position.
pub fn king_positions(pos: Position) -> (r: Vec<Position>)
    requires
        1 <= pos.row,
        1 <= pos.col,
        pos.row + 1 <= usize::MAX,
        pos.col + 1 <= usize::MAX,
    ensures
        r@ == king_positions_seq(pos),
        r@.len() == 8,
{
    let r = vec![
        pos.up().left(),
        pos.up(),
        pos.up().right(),
        pos.left(),
        pos.right(),
        pos.down().left(),
        pos.down(),
        pos.down().right(),
    ];
    proof {
        assert(r@ =~= king_positions_seq(pos));
    }
    r
}

/// Where the mover's king stands after a sound move: on its destination when
/// the king itself moved or castled, and where it already stood otherwise.
proof fn lemma_king_square_after(
    b: BoardModel,
    m: Move,
    color: Color,
    king_pos: Position,
    king_sq: Position,
)
    requires
        wf_board(b),
        move_ok(b, m),
        color == b.active_color,
        king_at(b, color, king_pos.row as int, king_pos.col as int),
        king_sq == (match m.move_type {
            MoveType::Standard(s) => if s.piece_moved.piece_type == PieceType::King {
                s.after
            } else {
                king_pos
            },
            MoveType::Castle(cm) => Position {
                row: if cm.color == Color::White {
                    9usize
                } else {
                    2usize
                },
                col: if cm.is_kingside {
                    8usize
                } else {
                    4usize
                },
            },
            MoveType::Promotion(_) => king_pos,
            MoveType::EnPassant(_) => king_pos,
        }),
    ensures
        king_at(spec_apply(b, m), color, king_sq.row as int, king_sq.col as int),
{
    let b2 = spec_apply(b, m);
    crate::board_model::lemma_move_ok_on_grid(b, m);
    assert forall|r: int, c: int| true implies #[trigger] piece_at(b2, r, c)
        == crate::board_model::apply_piece_at(b, m, r, c) by {
        crate::board_model::lemma_apply_lookup(b, m, r, c);
    }
    match m.move_type {
        MoveType::Standard(s) => {
            if s.piece_moved.piece_type == PieceType::King {
            } else {
                assert(!(king_pos.row == s.before.row && king_pos.col == s.before.col));
                assert(!(king_pos.row == s.after.row && king_pos.col == s.after.col));
            }
        },
        MoveType::Castle(cm) => {
            assert(king_at(
                b,
                color,
                if cm.color == Color::White {
                    9int
                } else {
                    2int
                },
                6,
            ));
        },
        MoveType::Promotion(pm) => {
            assert(!(king_pos.row == pm.before.row && king_pos.col == pm.before.col));
            assert(!(king_pos.row == pm.after.row && king_pos.col == pm.after.col));
        },
        MoveType::EnPassant(em) => {
            assert(!(king_pos.row == em.before.row && king_pos.col == em.before.col));
            assert(!(king_pos.row == em.after.row && king_pos.col == em.after.col));
            assert(!(king_pos.row == em.en_passant_pos.row && king_pos.col
                == em.en_passant_pos.col));
        },
    }
}

} // verus!
