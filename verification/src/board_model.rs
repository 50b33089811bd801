use vstd::prelude::*;
use crate::chess_move::{CastleMove, Direction, Move, MoveType, Position, StandardMove, col_delta, row_delta, valid_pos};
use crate::color::{other, Color};
use crate::piece::{Piece, PieceType};
use crate::square::Square;

verus! {

/// Castling permissions, one flag per side and color. Flags are only ever
/// cleared: by moving the king, by moving a rook off its home square, or by
/// a rook being captured on its home square.
#[derive(Clone, Copy, PartialEq, Eq, Structural, Debug)]
pub struct CastleRights {
    pub can_castle_white_kingside: bool,
    pub can_castle_white_queenside: bool,
    pub can_castle_black_kingside: bool,
    pub can_castle_black_queenside: bool,
}

/// Mathematical view of a board: the 144 squares of the padded grid in
/// row-major order, the side to move, castling permissions, the square a pawn
/// just skipped over (if the last move was a double push), and the last move
/// played.
#[verifier::ext_equal]
pub struct BoardModel {
    pub squares: Seq<Square>,
    pub active_color: Color,
    pub castle_rights: CastleRights,
    pub en_passant: Option<Position>,
    pub last_move: Option<Move>,
}

/// A coordinate pair that lies somewhere on the padded 12 by 12 grid.
pub open spec fn on_grid(r: int, c: int) -> bool {
    0 <= r < 12 && 0 <= c < 12
}

/// Index of a grid cell in the row-major square sequence.
pub open spec fn grid_idx(r: int, c: int) -> int {
    r * 12 + c
}

/// The piece standing at a grid cell, None off the grid.
pub open spec fn sq_piece(s: Seq<Square>, r: int, c: int) -> Option<Piece> {
    if on_grid(r, c) {
        s[grid_idx(r, c)].piece
    } else {
        None
    }
}

/// The piece standing at a cell of the board.
pub open spec fn piece_at(b: BoardModel, r: int, c: int) -> Option<Piece> {
    sq_piece(b.squares, r, c)
}

/// A king of the given color stands on the playable square (r, c).
pub open spec fn king_at(b: BoardModel, color: Color, r: int, c: int) -> bool {
    valid_pos(r, c) && piece_at(b, r, c) == Some(
        Piece { piece_type: PieceType::King, color },
    )
}

/// The board holds exactly one king of the given color on its playable part.
pub open spec fn exactly_one_king(b: BoardModel, color: Color) -> bool {
    &&& exists|r: int, c: int| king_at(b, color, r, c)
    &&& forall|r1: int, c1: int, r2: int, c2: int|
        king_at(b, color, r1, c1) && king_at(b, color, r2, c2) ==> r1 == r2 && c1 == c2
}

/// Each castling flag that is still set has its king and rook standing on
/// their home squares.
pub open spec fn rights_consistent(b: BoardModel) -> bool {
    &&& b.castle_rights.can_castle_white_kingside ==> piece_at(b, 9, 6) == Some(
        Piece { piece_type: PieceType::King, color: Color::White },
    ) && piece_at(b, 9, 9) == Some(Piece { piece_type: PieceType::Rook, color: Color::White })
    &&& b.castle_rights.can_castle_white_queenside ==> piece_at(b, 9, 6) == Some(
        Piece { piece_type: PieceType::King, color: Color::White },
    ) && piece_at(b, 9, 2) == Some(Piece { piece_type: PieceType::Rook, color: Color::White })
    &&& b.castle_rights.can_castle_black_kingside ==> piece_at(b, 2, 6) == Some(
        Piece { piece_type: PieceType::King, color: Color::Black },
    ) && piece_at(b, 2, 9) == Some(Piece { piece_type: PieceType::Rook, color: Color::Black })
    &&& b.castle_rights.can_castle_black_queenside ==> piece_at(b, 2, 6) == Some(
        Piece { piece_type: PieceType::King, color: Color::Black },
    ) && piece_at(b, 2, 2) == Some(Piece { piece_type: PieceType::Rook, color: Color::Black })
}

/// Structural validity of a board: the sequence covers the whole grid, the
/// border is empty, no pawn stands on the rank it would promote on, the
/// en-passant square (if any) is playable, each side has exactly one king,
/// and castling flags are consistent with the pieces.
pub open spec fn wf_board(b: BoardModel) -> bool {
    &&& b.squares.len() == 144
    &&& forall|r: int, c: int|
        on_grid(r, c) && !valid_pos(r, c) ==> #[trigger] sq_piece(b.squares, r, c) is None
    &&& forall|r: int, c: int|
        #[trigger] piece_at(b, r, c) matches Some(p) ==> ((p.piece_type == PieceType::Pawn
            && p.color == Color::White ==> r >= 3) && (p.piece_type == PieceType::Pawn && p.color
            == Color::Black ==> r <= 8))
    &&& b.en_passant matches Some(p) ==> valid_pos(p.row as int, p.col as int)
    &&& exactly_one_king(b, Color::White)
    &&& exactly_one_king(b, Color::Black)
    &&& rights_consistent(b)
}

/// Number of steps a ray can still take before leaving the grid; drives
/// termination of `first_on_ray`.
pub open spec fn ray_measure(r: int, c: int, d: Direction) -> int {
    if row_delta(d) == -1 {
        r
    } else if row_delta(d) == 1 {
        11 - r
    } else if col_delta(d) == -1 {
        c
    } else {
        11 - c
    }
}

/// The first piece met when walking from (r, c) in direction d, one square at
/// a time, stopping at the edge of the playable board.
pub open spec fn first_on_ray(b: BoardModel, r: int, c: int, d: Direction) -> Option<Piece>
    decreases ray_measure(r, c, d),
{
    let r2 = r + row_delta(d);
    let c2 = c + col_delta(d);
    if !valid_pos(r2, c2) {
        None
    } else if piece_at(b, r2, c2) is Some {
        piece_at(b, r2, c2)
    } else {
        first_on_ray(b, r2, c2, d)
    }
}

/// The optional piece is an enemy of `color` and of one of the two kinds.
pub open spec fn enemy_of_kind(p: Option<Piece>, color: Color, k1: PieceType, k2: PieceType) -> bool {
    match p {
        Some(q) => q.color != color && (q.piece_type == k1 || q.piece_type == k2),
        None => false,
    }
}

/// The square holds an enemy (of `color`) piece of the given kind.
pub open spec fn enemy_at(b: BoardModel, color: Color, r: int, c: int, k: PieceType) -> bool {
    match piece_at(b, r, c) {
        Some(q) => q.color != color && q.piece_type == k,
        None => false,
    }
}

/// An enemy rook or queen gives check along a rank or file.
pub open spec fn orthogonal_attacked(b: BoardModel, color: Color, r: int, c: int) -> bool {
    ||| enemy_of_kind(first_on_ray(b, r, c, Direction::Up), color, PieceType::Rook, PieceType::Queen)
    ||| enemy_of_kind(
        first_on_ray(b, r, c, Direction::Down),
        color,
        PieceType::Rook,
        PieceType::Queen,
    )
    ||| enemy_of_kind(
        first_on_ray(b, r, c, Direction::Left),
        color,
        PieceType::Rook,
        PieceType::Queen,
    )
    ||| enemy_of_kind(
        first_on_ray(b, r, c, Direction::Right),
        color,
        PieceType::Rook,
        PieceType::Queen,
    )
}

/// An enemy bishop or queen gives check along a diagonal.
pub open spec fn diagonal_attacked(b: BoardModel, color: Color, r: int, c: int) -> bool {
    ||| enemy_of_kind(
        first_on_ray(b, r, c, Direction::UpRight),
        color,
        PieceType::Bishop,
        PieceType::Queen,
    )
    ||| enemy_of_kind(
        first_on_ray(b, r, c, Direction::DownRight),
        color,
        PieceType::Bishop,
        PieceType::Queen,
    )
    ||| enemy_of_kind(
        first_on_ray(b, r, c, Direction::UpLeft),
        color,
        PieceType::Bishop,
        PieceType::Queen,
    )
    ||| enemy_of_kind(
        first_on_ray(b, r, c, Direction::DownLeft),
        color,
        PieceType::Bishop,
        PieceType::Queen,
    )
}

/// An enemy pawn attacks the square diagonally, from the direction it moves
/// in.
pub open spec fn pawn_attacked(b: BoardModel, color: Color, r: int, c: int) -> bool {
    match color {
        Color::White => enemy_at(b, color, r - 1, c - 1, PieceType::Pawn) || enemy_at(
            b,
            color,
            r - 1,
            c + 1,
            PieceType::Pawn,
        ),
        Color::Black => enemy_at(b, color, r + 1, c - 1, PieceType::Pawn) || enemy_at(
            b,
            color,
            r + 1,
            c + 1,
            PieceType::Pawn,
        ),
    }
}

/// An enemy knight attacks the square from one of its eight offsets.
pub open spec fn knight_attacked(b: BoardModel, color: Color, r: int, c: int) -> bool {
    ||| enemy_at(b, color, r - 2, c + 1, PieceType::Knight)
    ||| enemy_at(b, color, r - 2, c - 1, PieceType::Knight)
    ||| enemy_at(b, color, r + 2, c + 1, PieceType::Knight)
    ||| enemy_at(b, color, r + 2, c - 1, PieceType::Knight)
    ||| enemy_at(b, color, r - 1, c - 2, PieceType::Knight)
    ||| enemy_at(b, color, r + 1, c - 2, PieceType::Knight)
    ||| enemy_at(b, color, r - 1, c + 2, PieceType::Knight)
    ||| enemy_at(b, color, r + 1, c + 2, PieceType::Knight)
}

/// The enemy king stands on an adjacent square.
pub open spec fn king_adjacent_attacked(b: BoardModel, color: Color, r: int, c: int) -> bool {
    ||| enemy_at(b, color, r - 1, c - 1, PieceType::King)
    ||| enemy_at(b, color, r - 1, c, PieceType::King)
    ||| enemy_at(b, color, r - 1, c + 1, PieceType::King)
    ||| enemy_at(b, color, r, c - 1, PieceType::King)
    ||| enemy_at(b, color, r, c + 1, PieceType::King)
    ||| enemy_at(b, color, r + 1, c - 1, PieceType::King)
    ||| enemy_at(b, color, r + 1, c, PieceType::King)
    ||| enemy_at(b, color, r + 1, c + 1, PieceType::King)
}

/// Some piece of the side opposite to `color` attacks the square (r, c).
pub open spec fn square_attacked(b: BoardModel, color: Color, r: int, c: int) -> bool {
    ||| orthogonal_attacked(b, color, r, c)
    ||| diagonal_attacked(b, color, r, c)
    ||| pawn_attacked(b, color, r, c)
    ||| knight_attacked(b, color, r, c)
    ||| king_adjacent_attacked(b, color, r, c)
}

// ---------------------------------------------------------------------------
// The state transition of applying a move.
// ---------------------------------------------------------------------------

/// The square sequence with the piece at (r, c) replaced; the cell's terrain
/// color is kept.
pub open spec fn sq_set(s: Seq<Square>, r: int, c: int, p: Option<Piece>) -> Seq<Square> {
    s.update(grid_idx(r, c), Square { piece: p, color: s[grid_idx(r, c)].color })
}

/// Clears both castling flags of one color.
pub open spec fn clear_rights_color(cr: CastleRights, color: Color) -> CastleRights {
    match color {
        Color::White => CastleRights {
            can_castle_white_kingside: false,
            can_castle_white_queenside: false,
            ..cr
        },
        Color::Black => CastleRights {
            can_castle_black_kingside: false,
            can_castle_black_queenside: false,
            ..cr
        },
    }
}

/// Clears the castling flag owned by a rook home square, when the given cell
/// is one; used both when a rook leaves its corner and when one is captured
/// there.
pub open spec fn clear_rights_corner(cr: CastleRights, r: int, c: int) -> CastleRights {
    if r == 2 && c == 2 {
        CastleRights { can_castle_black_queenside: false, ..cr }
    } else if r == 2 && c == 9 {
        CastleRights { can_castle_black_kingside: false, ..cr }
    } else if r == 9 && c == 2 {
        CastleRights { can_castle_white_queenside: false, ..cr }
    } else if r == 9 && c == 9 {
        CastleRights { can_castle_white_kingside: false, ..cr }
    } else {
        cr
    }
}

/// Castling flags after an ordinary move: moving the king forfeits both
/// flags, moving a rook off its home square forfeits that flag, and
/// capturing a rook on its home square forfeits the victim's flag.
pub open spec fn rights_after_standard(cr: CastleRights, s: StandardMove, captured: Option<Piece>) -> CastleRights {
    let cr1 = if s.piece_moved.piece_type == PieceType::King {
        clear_rights_color(cr, s.piece_moved.color)
    } else if s.piece_moved.piece_type == PieceType::Rook {
        let home_corner = match s.piece_moved.color {
            Color::White => s.before.row == 9 && (s.before.col == 2 || s.before.col == 9),
            Color::Black => s.before.row == 2 && (s.before.col == 2 || s.before.col == 9),
        };
        if home_corner {
            clear_rights_corner(cr, s.before.row as int, s.before.col as int)
        } else {
            cr
        }
    } else {
        cr
    };
    match captured {
        Some(p) => if p.piece_type == PieceType::Rook {
            clear_rights_corner(cr1, s.after.row as int, s.after.col as int)
        } else {
            cr1
        },
        None => cr1,
    }
}

/// Distance between two rows.
pub open spec fn row_dist(a: int, b: int) -> int {
    if a >= b {
        a - b
    } else {
        b - a
    }
}

/// The en-passant target after an ordinary move: the skipped square when a
/// pawn just moved two rows, otherwise nothing.
pub open spec fn ep_after_standard(s: StandardMove) -> Option<Position> {
    if s.piece_moved.piece_type == PieceType::Pawn && row_dist(
        s.after.row as int,
        s.before.row as int,
    ) == 2 {
        Some(
            Position {
                row: ((s.before.row + s.after.row) / 2) as usize,
                col: s.after.col,
            },
        )
    } else {
        None
    }
}

/// The board after a move is applied: exactly the square changes the move
/// variant implies, the side to move flipped, castling flags updated, the
/// en-passant target recomputed, and the move recorded. Legality is not part
/// of this definition; it is checked by the move generator.
pub open spec fn spec_apply(b: BoardModel, m: Move) -> BoardModel {
    match m.move_type {
        MoveType::Standard(s) => {
            let s1 = sq_set(b.squares, s.before.row as int, s.before.col as int, None);
            let s2 = sq_set(s1, s.after.row as int, s.after.col as int, Some(s.piece_moved));
            BoardModel {
                squares: s2,
                active_color: other(b.active_color),
                castle_rights: rights_after_standard(b.castle_rights, s, m.piece_captured),
                en_passant: ep_after_standard(s),
                last_move: Some(m),
            }
        },
        MoveType::Castle(cm) => {
            let row: int = if cm.color == Color::White {
                9
            } else {
                2
            };
            let king = Piece { piece_type: PieceType::King, color: b.active_color };
            let rook = Piece { piece_type: PieceType::Rook, color: b.active_color };
            let sq = if cm.is_kingside {
                let s1 = sq_set(b.squares, row, 6, None);
                let s2 = sq_set(s1, row, 9, None);
                let s3 = sq_set(s2, row, 8, Some(king));
                sq_set(s3, row, 7, Some(rook))
            } else {
                let s1 = sq_set(b.squares, row, 6, None);
                let s2 = sq_set(s1, row, 2, None);
                let s3 = sq_set(s2, row, 4, Some(king));
                sq_set(s3, row, 5, Some(rook))
            };
            BoardModel {
                squares: sq,
                active_color: other(b.active_color),
                castle_rights: clear_rights_color(b.castle_rights, cm.color),
                en_passant: None,
                last_move: Some(m),
            }
        },
        MoveType::Promotion(pm) => {
            let s1 = sq_set(b.squares, pm.before.row as int, pm.before.col as int, None);
            let s2 = sq_set(s1, pm.after.row as int, pm.after.col as int, Some(pm.promote_to));
            let cr = match m.piece_captured {
                Some(p) => if p.piece_type == PieceType::Rook {
                    clear_rights_corner(b.castle_rights, pm.after.row as int, pm.after.col as int)
                } else {
                    b.castle_rights
                },
                None => b.castle_rights,
            };
            BoardModel {
                squares: s2,
                active_color: other(b.active_color),
                castle_rights: cr,
                en_passant: None,
                last_move: Some(m),
            }
        },
        MoveType::EnPassant(em) => {
            let pawn = Piece { piece_type: PieceType::Pawn, color: b.active_color };
            let s1 = sq_set(b.squares, em.before.row as int, em.before.col as int, None);
            let s2 = sq_set(s1, em.after.row as int, em.after.col as int, Some(pawn));
            let s3 = sq_set(s2, em.en_passant_pos.row as int, em.en_passant_pos.col as int, None);
            BoardModel {
                squares: s3,
                active_color: other(b.active_color),
                castle_rights: b.castle_rights,
                en_passant: None,
                last_move: Some(m),
            }
        },
    }
}

/// Every position a move names lies on the padded grid, so applying it only
/// touches real cells.
pub open spec fn move_on_grid(m: Move) -> bool {
    match m.move_type {
        MoveType::Standard(s) => on_grid(s.before.row as int, s.before.col as int) && on_grid(
            s.after.row as int,
            s.after.col as int,
        ),
        MoveType::Castle(_) => true,
        MoveType::Promotion(pm) => on_grid(pm.before.row as int, pm.before.col as int) && on_grid(
            pm.after.row as int,
            pm.after.col as int,
        ),
        MoveType::EnPassant(em) => on_grid(em.before.row as int, em.before.col as int) && on_grid(
            em.after.row as int,
            em.after.col as int,
        ) && on_grid(em.en_passant_pos.row as int, em.en_passant_pos.col as int),
    }
}

/// A pawn of the given color may stand on this row after moving: it never
/// reaches its own back rank except by promotion.
pub open spec fn pawn_dest_ok(color: Color, r: int) -> bool {
    match color {
        Color::White => r >= 3,
        Color::Black => r <= 8,
    }
}

/// The castling flag a castle move relies on.
pub open spec fn castle_flag(cr: CastleRights, cm: CastleMove) -> bool {
    match cm.color {
        Color::White => if cm.is_kingside {
            cr.can_castle_white_kingside
        } else {
            cr.can_castle_white_queenside
        },
        Color::Black => if cm.is_kingside {
            cr.can_castle_black_kingside
        } else {
            cr.can_castle_black_queenside
        },
    }
}

/// A move whose captured piece, if any, is a king; such moves only arise
/// pseudo-legally in broken lines and are discarded outright.
pub open spec fn captures_king(m: Move) -> bool {
    m.piece_captured matches Some(p) && p.piece_type == PieceType::King
}

/// Soundness of a move against its board except for the one rule that no
/// king is ever captured; the pseudo-legal generators establish this much,
/// and the legality filter adds the rest.
pub open spec fn move_fits(b: BoardModel, m: Move) -> bool {
    match m.move_type {
        MoveType::Standard(s) => {
            &&& valid_pos(s.before.row as int, s.before.col as int)
            &&& valid_pos(s.after.row as int, s.after.col as int)
            &&& !(s.before == s.after)
            &&& piece_at(b, s.before.row as int, s.before.col as int) == Some(s.piece_moved)
            &&& s.piece_moved.color == b.active_color
            &&& piece_at(b, s.after.row as int, s.after.col as int) == m.piece_captured
            &&& m.piece_captured matches Some(p) ==> p.color != b.active_color
            &&& s.piece_moved.piece_type == PieceType::Pawn ==> pawn_dest_ok(
                b.active_color,
                s.after.row as int,
            )
        },
        MoveType::Castle(cm) => {
            let row: int = if cm.color == Color::White {
                9
            } else {
                2
            };
            &&& cm.color == b.active_color
            &&& m.piece_captured is None
            &&& castle_flag(b.castle_rights, cm)
            &&& if cm.is_kingside {
                piece_at(b, row, 7) is None && piece_at(b, row, 8) is None
            } else {
                piece_at(b, row, 3) is None && piece_at(b, row, 4) is None && piece_at(
                    b,
                    row,
                    5,
                ) is None
            }
        },
        MoveType::Promotion(pm) => {
            &&& valid_pos(pm.before.row as int, pm.before.col as int)
            &&& valid_pos(pm.after.row as int, pm.after.col as int)
            &&& !(pm.before == pm.after)
            &&& piece_at(b, pm.before.row as int, pm.before.col as int) == Some(
                Piece { piece_type: PieceType::Pawn, color: b.active_color },
            )
            &&& pm.promote_to.color == b.active_color
            &&& pm.promote_to.piece_type != PieceType::King
            &&& pm.promote_to.piece_type != PieceType::Pawn
            &&& piece_at(b, pm.after.row as int, pm.after.col as int) == m.piece_captured
            &&& m.piece_captured matches Some(p) ==> p.color != b.active_color
            &&& match b.active_color {
                Color::White => pm.after.row == 2,
                Color::Black => pm.after.row == 9,
            }
        },
        MoveType::EnPassant(em) => {
            &&& valid_pos(em.before.row as int, em.before.col as int)
            &&& valid_pos(em.after.row as int, em.after.col as int)
            &&& valid_pos(em.en_passant_pos.row as int, em.en_passant_pos.col as int)
            &&& b.en_passant == Some(em.after)
            &&& piece_at(b, em.before.row as int, em.before.col as int) == Some(
                Piece { piece_type: PieceType::Pawn, color: b.active_color },
            )
            &&& piece_at(b, em.after.row as int, em.after.col as int) is None
            &&& piece_at(b, em.en_passant_pos.row as int, em.en_passant_pos.col as int) == Some(
                Piece { piece_type: PieceType::Pawn, color: other(b.active_color) },
            )
            &&& m.piece_captured == Some(
                Piece { piece_type: PieceType::Pawn, color: other(b.active_color) },
            )
            &&& em.en_passant_pos.row == em.before.row
            &&& em.en_passant_pos.col == em.after.col
            &&& !(em.before == em.after)
            &&& !(em.en_passant_pos == em.after)
            &&& !(em.en_passant_pos == em.before)
            &&& pawn_dest_ok(b.active_color, em.after.row as int)
        },
    }
}

/// Soundness of a move against the board it is played on: the mover stands
/// on its origin square and belongs to the side to move, the destination
/// holds exactly what the move claims to capture, captures never take a
/// king, and pawns never end up on their own back rank.
pub open spec fn move_ok(b: BoardModel, m: Move) -> bool {
    move_fits(b, m) && !captures_king(m)
}

/// The destination (r2, c2) is reachable from (r, c) by walking in direction
/// d across playable squares, every square strictly between the two being
/// empty. The destination itself may hold a piece.
pub open spec fn on_ray_clear(b: BoardModel, r: int, c: int, d: Direction, r2: int, c2: int) -> bool
    decreases ray_measure(r, c, d),
{
    let rn = r + row_delta(d);
    let cn = c + col_delta(d);
    if !valid_pos(rn, cn) {
        false
    } else if rn == r2 && cn == c2 {
        true
    } else {
        piece_at(b, rn, cn) is None && on_ray_clear(b, rn, cn, d, r2, c2)
    }
}

/// A ray destination always lies on the playable board.
pub proof fn lemma_ray_dest_valid(b: BoardModel, r: int, c: int, d: Direction, r2: int, c2: int)
    requires
        on_ray_clear(b, r, c, d, r2, c2),
    ensures
        valid_pos(r2, c2),
    decreases ray_measure(r, c, d),
{
    let rn = r + row_delta(d);
    let cn = c + col_delta(d);
    if !(rn == r2 && cn == c2) {
        lemma_ray_dest_valid(b, rn, cn, d, r2, c2);
    }
}

/// A clear ray over an empty destination extends one more step.
pub proof fn lemma_ray_extend(b: BoardModel, r: int, c: int, d: Direction, r2: int, c2: int)
    requires
        on_ray_clear(b, r, c, d, r2, c2),
        piece_at(b, r2, c2) is None,
        valid_pos(r2 + row_delta(d), c2 + col_delta(d)),
    ensures
        on_ray_clear(b, r, c, d, r2 + row_delta(d), c2 + col_delta(d)),
    decreases ray_measure(r, c, d),
{
    let rn = r + row_delta(d);
    let cn = c + col_delta(d);
    if rn == r2 && cn == c2 {
        assert(row_delta(d) != 0 || col_delta(d) != 0);
        assert(on_ray_clear(b, r2, c2, d, r2 + row_delta(d), c2 + col_delta(d)));
    } else {
        lemma_ray_extend(b, rn, cn, d, r2, c2);
    }
}

/// Walking a ray moves strictly along its direction.
pub proof fn lemma_ray_monotone(b: BoardModel, r: int, c: int, d: Direction, r2: int, c2: int)
    requires
        on_ray_clear(b, r, c, d, r2, c2),
    ensures
        row_delta(d) == 1 ==> r2 > r,
        row_delta(d) == -1 ==> r2 < r,
        col_delta(d) == 1 ==> c2 > c,
        col_delta(d) == -1 ==> c2 < c,
    decreases ray_measure(r, c, d),
{
    let rn = r + row_delta(d);
    let cn = c + col_delta(d);
    if !(rn == r2 && cn == c2) {
        lemma_ray_monotone(b, rn, cn, d, r2, c2);
    }
}

/// Two distinct destinations of clear rays from one square are ordered: the
/// nearer one is empty and the farther one is clear-reachable from it.
pub proof fn lemma_ray_split(
    b: BoardModel,
    r: int,
    c: int,
    d: Direction,
    xr: int,
    xc: int,
    yr: int,
    yc: int,
)
    requires
        on_ray_clear(b, r, c, d, xr, xc),
        on_ray_clear(b, r, c, d, yr, yc),
        !(xr == yr && xc == yc),
    ensures
        (piece_at(b, xr, xc) is None && on_ray_clear(b, xr, xc, d, yr, yc)) || (piece_at(
            b,
            yr,
            yc,
        ) is None && on_ray_clear(b, yr, yc, d, xr, xc)),
    decreases ray_measure(r, c, d),
{
    let rn = r + row_delta(d);
    let cn = c + col_delta(d);
    if rn == xr && cn == xc {
    } else if rn == yr && cn == yc {
    } else {
        lemma_ray_split(b, rn, cn, d, xr, xc, yr, yc);
    }
}

/// The directions a sliding piece may ray along.
pub open spec fn slider_dirs_ok(pt: PieceType, d: Direction) -> bool {
    match pt {
        PieceType::Rook => d is Up || d is Down || d is Left || d is Right,
        PieceType::Bishop => d is UpRight || d is UpLeft || d is DownRight || d is DownLeft,
        PieceType::Queen => true,
        _ => false,
    }
}

/// The home rank a pawn of this color double-pushes from.
pub open spec fn pawn_home_row(color: Color) -> int {
    match color {
        Color::White => 8,
        Color::Black => 3,
    }
}

/// Row change of a single forward step of a pawn of this color.
pub open spec fn pawn_step(color: Color) -> int {
    match color {
        Color::White => -1,
        Color::Black => 1,
    }
}

/// The movement geometry of a move, on top of `move_ok`'s occupancy facts:
/// pawns push straight onto empty squares (two from home over an empty
/// square) and capture diagonally forward; knights jump their offsets; kings
/// step one square; sliders ray along their directions over empty squares;
/// castling also demands that the king stands out of check and crosses no
/// attacked square; promotions and en-passant captures are single diagonal
/// or straight forward pawn steps.
pub open spec fn movement_ok(b: BoardModel, m: Move) -> bool {
    match m.move_type {
        MoveType::Standard(s) => {
            let br = s.before.row as int;
            let bc = s.before.col as int;
            let ar = s.after.row as int;
            let ac = s.after.col as int;
            match s.piece_moved.piece_type {
                PieceType::Pawn => {
                    let dir = pawn_step(s.piece_moved.color);
                    ||| (ac == bc && ar == br + dir && piece_at(b, ar, ac) is None)
                    ||| (ac == bc && br == pawn_home_row(s.piece_moved.color) && ar == br + 2 * dir
                        && piece_at(b, br + dir, bc) is None && piece_at(b, ar, ac) is None)
                    ||| ((ac == bc + 1 || ac == bc - 1) && ar == br + dir && piece_at(
                        b,
                        ar,
                        ac,
                    ) is Some)
                },
                PieceType::Knight => {
                    ||| ((ar == br - 2 || ar == br + 2) && (ac == bc + 1 || ac == bc - 1))
                    ||| ((ac == bc - 2 || ac == bc + 2) && (ar == br + 1 || ar == br - 1))
                },
                PieceType::King => br - 1 <= ar <= br + 1 && bc - 1 <= ac <= bc + 1,
                _ => exists|d: Direction|
                    slider_dirs_ok(s.piece_moved.piece_type, d) && #[trigger] on_ray_clear(
                        b,
                        br,
                        bc,
                        d,
                        ar,
                        ac,
                    ),
            }
        },
        MoveType::Castle(cm) => {
            let row: int = if cm.color == Color::White {
                9
            } else {
                2
            };
            &&& !square_attacked(b, cm.color, row, 6)
            &&& if cm.is_kingside {
                !square_attacked(b, cm.color, row, 7) && !square_attacked(b, cm.color, row, 8)
            } else {
                !square_attacked(b, cm.color, row, 5) && !square_attacked(b, cm.color, row, 4)
            }
        },
        MoveType::Promotion(pm) => {
            let br = pm.before.row as int;
            let bc = pm.before.col as int;
            let ar = pm.after.row as int;
            let ac = pm.after.col as int;
            let dir = pawn_step(pm.promote_to.color);
            &&& ar == br + dir
            &&& ((ac == bc && piece_at(b, ar, ac) is None) || ((ac == bc + 1 || ac == bc - 1)
                && piece_at(b, ar, ac) is Some))
        },
        MoveType::EnPassant(em) => {
            let dir = pawn_step(b.active_color);
            &&& em.after.row as int == em.before.row as int + dir
            &&& (em.after.col as int == em.before.col as int + 1 || em.after.col as int
                == em.before.col as int - 1)
        },
    }
}

/// The side to move stands in check: its king square is attacked.
pub open spec fn in_check(b: BoardModel) -> bool {
    exists|kr: int, kc: int|
        king_at(b, b.active_color, kr, kc) && square_attacked(b, b.active_color, kr, kc)
}

/// After the move is applied, the mover's own king is not attacked; this is
/// the legality property every generated move carries.
pub open spec fn king_safe_after(b: BoardModel, m: Move) -> bool {
    forall|kr: int, kc: int|
        king_at(spec_apply(b, m), b.active_color, kr, kc) ==> !square_attacked(
            spec_apply(b, m),
            b.active_color,
            kr,
            kc,
        )
}

/// A legal move: sound against the board, geometrically a real move of its
/// piece, and leaving the mover's king safe.
pub open spec fn move_legal(b: BoardModel, m: Move) -> bool {
    move_ok(b, m) && movement_ok(b, m) && king_safe_after(b, m)
}

/// The position offers no legal move at all: it is terminal.
pub open spec fn no_legal_move(b: BoardModel) -> bool {
    forall|m: Move| !move_legal(b, m)
}

// ---------------------------------------------------------------------------
// Counting pieces.
// ---------------------------------------------------------------------------

/// How many squares of the sequence satisfy the predicate.
pub open spec fn count_where(s: Seq<Square>, f: spec_fn(Square) -> bool) -> nat
    decreases s.len(),
{
    if s.len() == 0 {
        0
    } else {
        count_where(s.drop_last(), f) + if f(s.last()) {
            1nat
        } else {
            0nat
        }
    }
}

/// Number of occupied squares of the sequence.
pub open spec fn occupied_count(s: Seq<Square>) -> nat {
    count_where(s, |q: Square| q.piece is Some)
}

/// Replacing one element changes the count by the difference of the two
/// elements' contributions.
pub proof fn lemma_count_where_update(s: Seq<Square>, f: spec_fn(Square) -> bool, i: int, v: Square)
    requires
        0 <= i < s.len(),
    ensures
        count_where(s.update(i, v), f) + (if f(s[i]) {
            1nat
        } else {
            0nat
        }) == count_where(s, f) + (if f(v) {
            1nat
        } else {
            0nat
        }),
    decreases s.len(),
{
    if i == s.len() - 1 {
        assert(s.update(i, v).drop_last() =~= s.drop_last());
    } else {
        assert(s.update(i, v).drop_last() =~= s.drop_last().update(i, v));
        lemma_count_where_update(s.drop_last(), f, i, v);
    }
}

/// Two different grid cells index two different sequence slots.
pub proof fn lemma_grid_idx_injective(r1: int, c1: int, r2: int, c2: int)
    requires
        on_grid(r1, c1),
        on_grid(r2, c2),
        grid_idx(r1, c1) == grid_idx(r2, c2),
    ensures
        r1 == r2 && c1 == c2,
{
    assert(r1 == r2 && c1 == c2) by (nonlinear_arith)
        requires
            0 <= r1 < 12 && 0 <= c1 < 12 && 0 <= r2 < 12 && 0 <= c2 < 12 && r1 * 12 + c1 == r2 * 12
                + c2,
    ;
}

/// What a single square write does to every lookup: the written cell reads
/// back the new piece, every other cell is unchanged.
pub proof fn lemma_sq_set_lookup(s: Seq<Square>, r: int, c: int, p: Option<Piece>, r2: int, c2: int)
    requires
        s.len() == 144,
        on_grid(r, c),
    ensures
        sq_piece(sq_set(s, r, c, p), r2, c2) == if r2 == r && c2 == c {
            p
        } else {
            sq_piece(s, r2, c2)
        },
{
    assert(0 <= grid_idx(r, c) < 144) by (nonlinear_arith)
        requires
            0 <= r < 12 && 0 <= c < 12,
    ;
    if on_grid(r2, c2) {
        if r2 == r && c2 == c {
        } else {
            lemma_grid_idx_injective_contra(r, c, r2, c2);
        }
    }
}

/// Different cells, different indices.
proof fn lemma_grid_idx_injective_contra(r1: int, c1: int, r2: int, c2: int)
    requires
        on_grid(r1, c1),
        on_grid(r2, c2),
        !(r1 == r2 && c1 == c2),
    ensures
        grid_idx(r1, c1) != grid_idx(r2, c2),
{
    if grid_idx(r1, c1) == grid_idx(r2, c2) {
        lemma_grid_idx_injective(r1, c1, r2, c2);
    }
}

/// What applying a move leaves on each cell: the handful of cells the move
/// names take their new contents, every other cell keeps its piece.
pub open spec fn apply_piece_at(b: BoardModel, m: Move, r: int, c: int) -> Option<Piece> {
    match m.move_type {
        MoveType::Standard(s) => if r == s.after.row as int && c == s.after.col as int {
            Some(s.piece_moved)
        } else if r == s.before.row as int && c == s.before.col as int {
            None
        } else {
            piece_at(b, r, c)
        },
        MoveType::Castle(cm) => {
            let row: int = if cm.color == Color::White {
                9
            } else {
                2
            };
            let king = Piece { piece_type: PieceType::King, color: b.active_color };
            let rook = Piece { piece_type: PieceType::Rook, color: b.active_color };
            if cm.is_kingside {
                if r == row && c == 7 {
                    Some(rook)
                } else if r == row && c == 8 {
                    Some(king)
                } else if r == row && (c == 9 || c == 6) {
                    None
                } else {
                    piece_at(b, r, c)
                }
            } else {
                if r == row && c == 5 {
                    Some(rook)
                } else if r == row && c == 4 {
                    Some(king)
                } else if r == row && (c == 2 || c == 6) {
                    None
                } else {
                    piece_at(b, r, c)
                }
            }
        },
        MoveType::Promotion(pm) => if r == pm.after.row as int && c == pm.after.col as int {
            Some(pm.promote_to)
        } else if r == pm.before.row as int && c == pm.before.col as int {
            None
        } else {
            piece_at(b, r, c)
        },
        MoveType::EnPassant(em) => if r == em.en_passant_pos.row as int && c
            == em.en_passant_pos.col as int {
            None
        } else if r == em.after.row as int && c == em.after.col as int {
            Some(Piece { piece_type: PieceType::Pawn, color: b.active_color })
        } else if r == em.before.row as int && c == em.before.col as int {
            None
        } else {
            piece_at(b, r, c)
        },
    }
}

/// Applying a move reads back as `apply_piece_at` everywhere on the grid.
pub proof fn lemma_apply_lookup(b: BoardModel, m: Move, r: int, c: int)
    requires
        b.squares.len() == 144,
        move_on_grid(m),
    ensures
        piece_at(spec_apply(b, m), r, c) == apply_piece_at(b, m, r, c),
{
    match m.move_type {
        MoveType::Standard(s) => {
            let s1 = sq_set(b.squares, s.before.row as int, s.before.col as int, None);
            lemma_sq_set_lookup(b.squares, s.before.row as int, s.before.col as int, None, r, c);
            lemma_sq_set_lookup(
                s1,
                s.after.row as int,
                s.after.col as int,
                Some(s.piece_moved),
                r,
                c,
            );
        },
        MoveType::Castle(cm) => {
            let row: int = if cm.color == Color::White {
                9
            } else {
                2
            };
            let king = Piece { piece_type: PieceType::King, color: b.active_color };
            let rook = Piece { piece_type: PieceType::Rook, color: b.active_color };
            if cm.is_kingside {
                let s1 = sq_set(b.squares, row, 6, None);
                let s2 = sq_set(s1, row, 9, None);
                let s3 = sq_set(s2, row, 8, Some(king));
                lemma_sq_set_lookup(b.squares, row, 6, None, r, c);
                lemma_sq_set_lookup(s1, row, 9, None, r, c);
                lemma_sq_set_lookup(s2, row, 8, Some(king), r, c);
                lemma_sq_set_lookup(s3, row, 7, Some(rook), r, c);
            } else {
                let s1 = sq_set(b.squares, row, 6, None);
                let s2 = sq_set(s1, row, 2, None);
                let s3 = sq_set(s2, row, 4, Some(king));
                lemma_sq_set_lookup(b.squares, row, 6, None, r, c);
                lemma_sq_set_lookup(s1, row, 2, None, r, c);
                lemma_sq_set_lookup(s2, row, 4, Some(king), r, c);
                lemma_sq_set_lookup(s3, row, 5, Some(rook), r, c);
            }
        },
        MoveType::Promotion(pm) => {
            let s1 = sq_set(b.squares, pm.before.row as int, pm.before.col as int, None);
            lemma_sq_set_lookup(b.squares, pm.before.row as int, pm.before.col as int, None, r, c);
            lemma_sq_set_lookup(
                s1,
                pm.after.row as int,
                pm.after.col as int,
                Some(pm.promote_to),
                r,
                c,
            );
        },
        MoveType::EnPassant(em) => {
            let pawn = Piece { piece_type: PieceType::Pawn, color: b.active_color };
            let s1 = sq_set(b.squares, em.before.row as int, em.before.col as int, None);
            let s2 = sq_set(s1, em.after.row as int, em.after.col as int, Some(pawn));
            lemma_sq_set_lookup(b.squares, em.before.row as int, em.before.col as int, None, r, c);
            lemma_sq_set_lookup(s1, em.after.row as int, em.after.col as int, Some(pawn), r, c);
            lemma_sq_set_lookup(
                s2,
                em.en_passant_pos.row as int,
                em.en_passant_pos.col as int,
                None,
                r,
                c,
            );
        },
    }
}

/// A move names only cells of the grid once it is sound for its board.
pub proof fn lemma_move_ok_on_grid(b: BoardModel, m: Move)
    requires
        move_ok(b, m),
    ensures
        move_on_grid(m),
{
}

/// Applying a sound move to a structurally valid board yields a structurally
/// valid board: the border stays empty, pawns stay off their back ranks, the
/// en-passant target stays playable, both kings survive as the only kings of
/// their colors, and castling flags stay backed by their pieces.
pub proof fn lemma_apply_wf(b: BoardModel, m: Move)
    requires
        wf_board(b),
        move_ok(b, m),
    ensures
        wf_board(spec_apply(b, m)),
{
    let b2 = spec_apply(b, m);
    lemma_move_ok_on_grid(b, m);
    assert forall|r: int, c: int| true implies #[trigger] piece_at(b2, r, c) == apply_piece_at(
        b,
        m,
        r,
        c,
    ) by {
        lemma_apply_lookup(b, m, r, c);
    }
    assert(b2.squares.len() == 144);

    // Border cells keep reading empty: every cell a move names is playable.
    assert forall|r: int, c: int| on_grid(r, c) && !valid_pos(r, c) implies #[trigger] sq_piece(
        b2.squares,
        r,
        c,
    ) is None by {
        assert(piece_at(b2, r, c) == apply_piece_at(b, m, r, c));
        assert(sq_piece(b.squares, r, c) is None);
    }

    // No pawn lands on its own back rank.
    assert forall|r: int, c: int| #[trigger] piece_at(b2, r, c) is Some implies ({
        let p = piece_at(b2, r, c).unwrap();
        (p.piece_type == PieceType::Pawn && p.color == Color::White ==> r >= 3) && (p.piece_type
            == PieceType::Pawn && p.color == Color::Black ==> r <= 8)
    }) by {
        assert(piece_at(b2, r, c) == apply_piece_at(b, m, r, c));
    }

    // The en-passant target, when set, is a playable square.
    assert(b2.en_passant matches Some(p) ==> valid_pos(p.row as int, p.col as int));

    // Exactly one king of each color survives.
    assert(exactly_one_king(b2, Color::White)) by {
        lemma_apply_one_king(b, m, Color::White);
    }
    assert(exactly_one_king(b2, Color::Black)) by {
        lemma_apply_one_king(b, m, Color::Black);
    }

    // Castling flags that survive keep their king and rook at home.
    lemma_apply_rights_consistent(b, m);
}

/// The king of the given color survives a sound move as the only king of
/// that color.
proof fn lemma_apply_one_king(b: BoardModel, m: Move, color: Color)
    requires
        wf_board(b),
        move_ok(b, m),
    ensures
        exactly_one_king(spec_apply(b, m), color),
{
    let b2 = spec_apply(b, m);
    lemma_move_ok_on_grid(b, m);
    assert forall|r: int, c: int| true implies #[trigger] piece_at(b2, r, c) == apply_piece_at(
        b,
        m,
        r,
        c,
    ) by {
        lemma_apply_lookup(b, m, r, c);
    }
    let (kr, kc) = choose|kr: int, kc: int| king_at(b, color, kr, kc);
    assert(king_at(b, color, kr, kc));
    match m.move_type {
        MoveType::Standard(s) => {
            if s.piece_moved.piece_type == PieceType::King && s.piece_moved.color == color {
                // The king itself moves: its destination is the only king cell.
                assert(king_at(b, color, s.before.row as int, s.before.col as int));
                assert(kr == s.before.row as int && kc == s.before.col as int);
                assert(king_at(b2, color, s.after.row as int, s.after.col as int));
                assert forall|r1: int, c1: int| king_at(b2, color, r1, c1) implies r1
                    == s.after.row as int && c1 == s.after.col as int by {
                    if !(r1 == s.after.row as int && c1 == s.after.col as int) {
                        assert(king_at(b, color, r1, c1));
                    }
                }
            } else {
                // Some other piece moves: the king stays put and no king
                // appears or disappears.
                assert(!(kr == s.before.row as int && kc == s.before.col as int));
                assert(!(kr == s.after.row as int && kc == s.after.col as int));
                assert(king_at(b2, color, kr, kc));
                assert forall|r1: int, c1: int| king_at(b2, color, r1, c1) implies r1 == kr && c1
                    == kc by {
                    assert(king_at(b, color, r1, c1));
                }
            }
        },
        MoveType::Castle(cm) => {
            let row: int = if cm.color == Color::White {
                9
            } else {
                2
            };
            let dest_c: int = if cm.is_kingside {
                8
            } else {
                4
            };
            if color == b.active_color {
                assert(king_at(b, color, row, 6));
                assert(kr == row && kc == 6);
                assert(king_at(b2, color, row, dest_c));
                assert forall|r1: int, c1: int| king_at(b2, color, r1, c1) implies r1 == row && c1
                    == dest_c by {
                    if !(r1 == row && c1 == dest_c) {
                        assert(king_at(b, color, r1, c1));
                        assert(r1 == row && c1 == 6);
                    }
                }
            } else {
                // The enemy king stands on none of the four touched cells.
                assert(!(kr == row && kc == 6));
                assert(king_at(b2, color, kr, kc));
                assert forall|r1: int, c1: int| king_at(b2, color, r1, c1) implies r1 == kr && c1
                    == kc by {
                    assert(king_at(b, color, r1, c1));
                }
            }
        },
        MoveType::Promotion(pm) => {
            assert(!(kr == pm.before.row as int && kc == pm.before.col as int));
            assert(!(kr == pm.after.row as int && kc == pm.after.col as int));
            assert(king_at(b2, color, kr, kc));
            assert forall|r1: int, c1: int| king_at(b2, color, r1, c1) implies r1 == kr && c1
                == kc by {
                assert(king_at(b, color, r1, c1));
            }
        },
        MoveType::EnPassant(em) => {
            assert(!(kr == em.before.row as int && kc == em.before.col as int));
            assert(!(kr == em.after.row as int && kc == em.after.col as int));
            assert(!(kr == em.en_passant_pos.row as int && kc == em.en_passant_pos.col as int));
            assert(king_at(b2, color, kr, kc));
            assert forall|r1: int, c1: int| king_at(b2, color, r1, c1) implies r1 == kr && c1
                == kc by {
                assert(king_at(b, color, r1, c1));
            }
        },
    }
}

/// Castling flags that survive a sound move keep their king and rook at
/// home.
proof fn lemma_apply_rights_consistent(b: BoardModel, m: Move)
    requires
        wf_board(b),
        move_ok(b, m),
    ensures
        rights_consistent(spec_apply(b, m)),
{
    let b2 = spec_apply(b, m);
    lemma_move_ok_on_grid(b, m);
    assert forall|r: int, c: int| true implies #[trigger] piece_at(b2, r, c) == apply_piece_at(
        b,
        m,
        r,
        c,
    ) by {
        lemma_apply_lookup(b, m, r, c);
    }
}

/// Applying a castle move leaves both castling flags of the castling color
/// false, whichever side was castled.
pub proof fn lemma_castle_clears_rights(b: BoardModel, m: Move, cm: CastleMove)
    requires
        m.move_type == MoveType::Castle(cm),
    ensures
        cm.color == Color::White ==> !spec_apply(b, m).castle_rights.can_castle_white_kingside
            && !spec_apply(b, m).castle_rights.can_castle_white_queenside,
        cm.color == Color::Black ==> !spec_apply(b, m).castle_rights.can_castle_black_kingside
            && !spec_apply(b, m).castle_rights.can_castle_black_queenside,
{
}

/// The en-passant window lasts one move: after a pawn double-push the target
/// is exactly the square the pawn skipped, and after any other move it is
/// gone.
pub proof fn lemma_en_passant_window(b: BoardModel, m: Move)
    ensures
        match m.move_type {
            MoveType::Standard(s) => if s.piece_moved.piece_type == PieceType::Pawn && row_dist(
                s.after.row as int,
                s.before.row as int,
            ) == 2 {
                spec_apply(b, m).en_passant == Some(
                    Position {
                        row: ((s.before.row + s.after.row) / 2) as usize,
                        col: s.after.col,
                    },
                )
            } else {
                spec_apply(b, m).en_passant is None
            },
            _ => spec_apply(b, m).en_passant is None,
        },
{
}

/// A capture strictly reduces how many squares are occupied.
pub proof fn lemma_capture_reduces(b: BoardModel, m: Move)
    requires
        b.squares.len() == 144,
        move_ok(b, m),
        m.piece_captured is Some,
    ensures
        occupied_count(spec_apply(b, m).squares) < occupied_count(b.squares),
{
    let occ = |q: Square| q.piece is Some;
    match m.move_type {
        MoveType::Standard(s) => {
            lemma_two_cell_capture(
                b.squares,
                s.before.row as int,
                s.before.col as int,
                s.after.row as int,
                s.after.col as int,
                s.piece_moved,
            );
        },
        MoveType::Castle(_) => {
            assert(false);
        },
        MoveType::Promotion(pm) => {
            lemma_two_cell_capture(
                b.squares,
                pm.before.row as int,
                pm.before.col as int,
                pm.after.row as int,
                pm.after.col as int,
                pm.promote_to,
            );
        },
        MoveType::EnPassant(em) => {
            let pawn = Piece { piece_type: PieceType::Pawn, color: b.active_color };
            let br = em.before.row as int;
            let bc = em.before.col as int;
            let ar = em.after.row as int;
            let ac = em.after.col as int;
            let er = em.en_passant_pos.row as int;
            let ec = em.en_passant_pos.col as int;
            let s1 = sq_set(b.squares, br, bc, None);
            let s2 = sq_set(s1, ar, ac, Some(pawn));
            lemma_idx_bound(br, bc);
            lemma_idx_bound(ar, ac);
            lemma_idx_bound(er, ec);
            lemma_grid_idx_injective_contra(br, bc, ar, ac);
            lemma_grid_idx_injective_contra(br, bc, er, ec);
            lemma_grid_idx_injective_contra(ar, ac, er, ec);
            lemma_count_where_update(
                b.squares,
                occ,
                grid_idx(br, bc),
                Square { piece: None, color: b.squares[grid_idx(br, bc)].color },
            );
            lemma_count_where_update(
                s1,
                occ,
                grid_idx(ar, ac),
                Square { piece: Some(pawn), color: s1[grid_idx(ar, ac)].color },
            );
            lemma_count_where_update(
                s2,
                occ,
                grid_idx(er, ec),
                Square { piece: None, color: s2[grid_idx(er, ec)].color },
            );
        },
    }
}

/// A playable cell's index is inside the square sequence.
proof fn lemma_idx_bound(r: int, c: int)
    requires
        on_grid(r, c),
    ensures
        0 <= grid_idx(r, c) < 144,
{
    assert(0 <= r * 12 + c < 144) by (nonlinear_arith)
        requires
            0 <= r < 12 && 0 <= c < 12,
    ;
}

/// Emptying one occupied cell and overwriting a second occupied cell leaves
/// strictly fewer occupied squares.
proof fn lemma_two_cell_capture(s: Seq<Square>, br: int, bc: int, ar: int, ac: int, placed: Piece)
    requires
        s.len() == 144,
        on_grid(br, bc),
        on_grid(ar, ac),
        !(br == ar && bc == ac),
        s[grid_idx(br, bc)].piece is Some,
        s[grid_idx(ar, ac)].piece is Some,
    ensures
        occupied_count(
            sq_set(sq_set(s, br, bc, None), ar, ac, Some(placed)),
        ) < occupied_count(s),
{
    let occ = |q: Square| q.piece is Some;
    let s1 = sq_set(s, br, bc, None);
    lemma_idx_bound(br, bc);
    lemma_idx_bound(ar, ac);
    lemma_grid_idx_injective_contra(br, bc, ar, ac);
    lemma_count_where_update(
        s,
        occ,
        grid_idx(br, bc),
        Square { piece: None, color: s[grid_idx(br, bc)].color },
    );
    lemma_count_where_update(
        s1,
        occ,
        grid_idx(ar, ac),
        Square { piece: Some(placed), color: s1[grid_idx(ar, ac)].color },
    );
}

} // verus!
