use vstd::prelude::*;
use crate::board_model::{sq_piece, BoardModel};
use crate::board_state::BoardState;
use crate::color::{other, Color};
use crate::piece::{Piece, PieceType};
use crate::square::Square;

// Piece-square tables and phase weights in the PeSTO style: each piece kind
// has a midgame and an endgame table, read from White's side; Black reads the
// table mirrored vertically. The final score blends the midgame and endgame
// sums by the game phase, which counts the heavy material left on the board.

verus! {

pub const MG_PAWN_TABLE: [[i32; 8]; 8] = [
    [0, 0, 0, 0, 0, 0, 0, 0],
    [98, 134, 61, 95, 68, 126, 34, -11],
    [-6, 7, 26, 31, 65, 56, 25, -20],
    [-14, 13, 6, 21, 23, 12, 17, -23],
    [-27, -2, -5, 12, 17, 6, 10, -25],
    [-26, -4, -4, -10, 3, 3, 33, -12],
    [-35, -1, -20, -23, -15, 24, 38, -22],
    [0, 0, 0, 0, 0, 0, 0, 0],
];

pub const EG_PAWN_TABLE: [[i32; 8]; 8] = [
    [0, 0, 0, 0, 0, 0, 0, 0],
    [178, 173, 158, 134, 147, 132, 165, 187],
    [94, 100, 85, 67, 56, 53, 82, 84],
    [32, 24, 13, 5, -2, 4, 17, 17],
    [13, 9, -3, -7, -7, -8, 3, -1],
    [4, 7, -6, 1, 0, -5, -1, -8],
    [13, 8, 8, 10, 13, 0, 2, -7],
    [0, 0, 0, 0, 0, 0, 0, 0],
];

pub const MG_KNIGHT_TABLE: [[i32; 8]; 8] = [
    [-167, -89, -34, -49, 61, -97, -15, -107],
    [-73, -41, 72, 36, 23, 62, 7, -17],
    [-47, 60, 37, 65, 84, 129, 73, 44],
    [-9, 17, 19, 53, 37, 69, 18, 22],
    [-13, 4, 16, 13, 28, 19, 21, -8],
    [-23, -9, 12, 10, 19, 17, 25, -16],
    [-29, -53, -12, -3, -1, 18, -14, -19],
    [-105, -21, -58, -33, -17, -28, -19, -23],
];

pub const EG_KNIGHT_TABLE: [[i32; 8]; 8] = [
    [-58, -38, -13, -28, -31, -27, -63, -99],
    [-25, -8, -25, -2, -9, -25, -24, -52],
    [-24, -20, 10, 9, -1, -9, -19, -41],
    [-17, 3, 22, 22, 22, 11, 8, -18],
    [-18, -6, 16, 25, 16, 17, 4, -18],
    [-23, -3, -1, 15, 10, -3, -20, -22],
    [-42, -20, -10, -5, -2, -20, -23, -44],
    [-29, -51, -23, -15, -22, -18, -50, -64],
];

pub const MG_BISHOP_TABLE: [[i32; 8]; 8] = [
    [-29, 4, -82, -37, -25, -42, 7, -8],
    [-26, 16, -18, -13, 30, 59, 18, -47],
    [-16, 37, 43, 40, 35, 50, 37, -2],
    [-4, 5, 19, 50, 37, 37, 7, -2],
    [-6, 13, 13, 26, 34, 12, 10, 4],
    [0, 15, 15, 15, 14, 27, 18, 10],
    [4, 15, 16, 0, 7, 21, 33, 1],
    [-33, -3, -14, -21, -13, -12, -39, -21],
];

pub const EG_BISHOP_TABLE: [[i32; 8]; 8] = [
    [-14, -21, -11, -8, -7, -9, -17, -24],
    [-8, -4, 7, -12, -3, -13, -4, -14],
    [2, -8, 0, -1, -2, 6, 0, 4],
    [-3, 9, 12, 9, 14, 10, 3, 2],
    [-6, 3, 13, 19, 7, 10, -3, -9],
    [-12, -3, 8, 10, 13, 3, -7, -15],
    [-14, -18, -7, -1, 4, -9, -15, -27],
    [-23, -9, -23, -5, -9, -16, -5, -17],
];

pub const MG_ROOK_TABLE: [[i32; 8]; 8] = [
    [32, 42, 32, 51, 63, 9, 31, 43],
    [27, 32, 58, 62, 80, 67, 26, 44],
    [-5, 19, 26, 36, 17, 45, 61, 16],
    [-24, -11, 7, 26, 24, 35, -8, -20],
    [-36, -26, -12, -1, 9, -7, 6, -23],
    [-45, -25, -16, -17, 3, 0, -5, -33],
    [-44, -16, -20, -9, -1, 11, -6, -71],
    [-19, -13, 1, 17, 16, 7, -37, -26],
];

pub const EG_ROOK_TABLE: [[i32; 8]; 8] = [
    [13, 10, 18, 15, 12, 12, 8, 5],
    [11, 13, 13, 11, -3, 3, 8, 3],
    [7, 7, 7, 5, 4, -3, -5, -3],
    [4, 3, 13, 1, 2, 1, -1, 2],
    [3, 5, 8, 4, -5, -6, -8, -11],
    [-4, 0, -5, -1, -7, -12, -8, -16],
    [-6, -6, 0, 2, -9, -9, -11, -3],
    [-9, 2, 3, -1, -5, -13, 4, -20],
];

pub const MG_QUEEN_TABLE: [[i32; 8]; 8] = [
    [-28, 0, 29, 12, 59, 44, 43, 45],
    [-24, -39, -5, 1, -16, 57, 28, 54],
    [-13, -17, 7, 8, 29, 56, 47, 57],
    [-27, -27, -16, -16, -1, 17, -2, 1],
    [-9, -26, -9, -10, -2, -4, 3, -3],
    [-14, 2, -11, -2, -5, 2, 14, 5],
    [-35, -8, 11, 2, 8, 15, -3, 1],
    [-1, -18, -9, 10, -15, -25, -31, -50],
];

pub const EG_QUEEN_TABLE: [[i32; 8]; 8] = [
    [-9, 22, 22, 27, 27, 19, 10, 20],
    [-17, 20, 32, 41, 58, 25, 30, 0],
    [-20, 6, 9, 49, 47, 35, 19, 9],
    [3, 22, 24, 45, 57, 40, 57, 36],
    [-18, 28, 19, 47, 31, 34, 39, 23],
    [-16, -27, 15, 6, 9, 17, 10, 5],
    [-22, -23, -30, -16, -16, -23, -36, -32],
    [-33, -28, -22, -43, -5, -32, -20, -41],
];

pub const MG_KING_TABLE: [[i32; 8]; 8] = [
    [-65, 23, 16, -15, -56, -34, 2, 13],
    [29, -1, -20, -7, -8, -4, -38, -29],
    [-9, 24, 2, -16, -20, 6, 22, -22],
    [-17, -20, -12, -27, -30, -25, -14, -36],
    [-49, -1, -27, -39, -46, -44, -33, -51],
    [-14, -14, -22, -46, -44, -30, -15, -27],
    [1, 7, -8, -64, -43, -16, 9, 8],
    [-15, 36, 12, -54, 8, -28, 24, 14],
];

pub const EG_KING_TABLE: [[i32; 8]; 8] = [
    [-74, -35, -18, -18, -11, 15, 4, -17],
    [-12, 17, 14, 17, 17, 38, 23, 11],
    [10, 17, 23, 15, 20, 45, 44, 13],
    [-8, 22, 24, 27, 26, 33, 26, 3],
    [-18, -4, 21, 24, 27, 23, 9, -11],
    [-19, -3, 11, 21, 23, 16, 7, -9],
    [-27, -11, 4, 13, 14, 4, -5, -17],
    [-53, -34, -21, -11, -28, -14, -24, -43],
];

/// The midgame table of a piece kind.
pub open spec fn mg_table_of(pt: PieceType) -> [[i32; 8]; 8] {
    match pt {
        PieceType::Pawn => MG_PAWN_TABLE,
        PieceType::Knight => MG_KNIGHT_TABLE,
        PieceType::Bishop => MG_BISHOP_TABLE,
        PieceType::Rook => MG_ROOK_TABLE,
        PieceType::Queen => MG_QUEEN_TABLE,
        PieceType::King => MG_KING_TABLE,
    }
}

/// The endgame table of a piece kind.
pub open spec fn eg_table_of(pt: PieceType) -> [[i32; 8]; 8] {
    match pt {
        PieceType::Pawn => EG_PAWN_TABLE,
        PieceType::Knight => EG_KNIGHT_TABLE,
        PieceType::Bishop => EG_BISHOP_TABLE,
        PieceType::Rook => EG_ROOK_TABLE,
        PieceType::Queen => EG_QUEEN_TABLE,
        PieceType::King => EG_KING_TABLE,
    }
}

/// The midgame material value of a piece kind.
pub open spec fn mg_val_of(pt: PieceType) -> int {
    match pt {
        PieceType::Pawn => 82,
        PieceType::Knight => 337,
        PieceType::Bishop => 365,
        PieceType::Rook => 477,
        PieceType::Queen => 1025,
        PieceType::King => 0,
    }
}

/// The endgame material value of a piece kind.
pub open spec fn eg_val_of(pt: PieceType) -> int {
    match pt {
        PieceType::Pawn => 94,
        PieceType::Knight => 281,
        PieceType::Bishop => 297,
        PieceType::Rook => 512,
        PieceType::Queen => 936,
        PieceType::King => 0,
    }
}

/// How much a piece kind contributes to the game phase.
pub open spec fn phase_val_of(pt: PieceType) -> int {
    match pt {
        PieceType::Pawn => 0,
        PieceType::Knight => 1,
        PieceType::Bishop => 1,
        PieceType::Rook => 2,
        PieceType::Queen => 4,
        PieceType::King => 0,
    }
}

/// The midgame table for a piece.
pub fn get_mg_table(piece: Piece) -> (t: [[i32; 8]; 8])
    ensures
        t == mg_table_of(piece.piece_type),
{
    match piece.piece_type {
        PieceType::Pawn => MG_PAWN_TABLE,
        PieceType::Knight => MG_KNIGHT_TABLE,
        PieceType::Bishop => MG_BISHOP_TABLE,
        PieceType::Rook => MG_ROOK_TABLE,
        PieceType::Queen => MG_QUEEN_TABLE,
        PieceType::King => MG_KING_TABLE,
    }
}

/// The endgame table for a piece.
pub fn get_eg_table(piece: Piece) -> (t: [[i32; 8]; 8])
    ensures
        t == eg_table_of(piece.piece_type),
{
    match piece.piece_type {
        PieceType::Pawn => EG_PAWN_TABLE,
        PieceType::Knight => EG_KNIGHT_TABLE,
        PieceType::Bishop => EG_BISHOP_TABLE,
        PieceType::Rook => EG_ROOK_TABLE,
        PieceType::Queen => EG_QUEEN_TABLE,
        PieceType::King => EG_KING_TABLE,
    }
}

/// The midgame material value for a piece.
pub fn get_mg_piece_val(piece: Piece) -> (v: i32)
    ensures
        v as int == mg_val_of(piece.piece_type),
{
    match piece.piece_type {
        PieceType::Pawn => 82,
        PieceType::Knight => 337,
        PieceType::Bishop => 365,
        PieceType::Rook => 477,
        PieceType::Queen => 1025,
        PieceType::King => 0,
    }
}

/// The endgame material value for a piece.
pub fn get_eg_piece_val(piece: Piece) -> (v: i32)
    ensures
        v as int == eg_val_of(piece.piece_type),
{
    match piece.piece_type {
        PieceType::Pawn => 94,
        PieceType::Knight => 281,
        PieceType::Bishop => 297,
        PieceType::Rook => 512,
        PieceType::Queen => 936,
        PieceType::King => 0,
    }
}

/// The game-phase weight for a piece.
pub fn get_game_phase_val(piece: Piece) -> (v: i32)
    ensures
        v as int == phase_val_of(piece.piece_type),
{
    match piece.piece_type {
        PieceType::Pawn => 0,
        PieceType::Knight => 1,
        PieceType::Bishop => 1,
        PieceType::Rook => 2,
        PieceType::Queen => 4,
        PieceType::King => 0,
    }
}

/// Every table entry is small; keeps the running sums inside i32.
pub proof fn lemma_table_bounds(pt: PieceType)
    ensures
        forall|i: int, j: int|
            0 <= i < 8 && 0 <= j < 8 ==> -200 <= #[trigger] mg_table_of(pt)@[i]@[j] <= 200,
        forall|i: int, j: int|
            0 <= i < 8 && 0 <= j < 8 ==> -200 <= #[trigger] eg_table_of(pt)@[i]@[j] <= 200,
        0 <= mg_val_of(pt) <= 1025,
        0 <= eg_val_of(pt) <= 1025,
        0 <= phase_val_of(pt) <= 4,
{
}

/// What one square adds to White's midgame sum.
pub open spec fn white_mg_cell(s: Seq<Square>, r: int, c: int) -> int {
    match sq_piece(s, r, c) {
        Some(p) => if p.color == Color::White {
            mg_table_of(p.piece_type)@[r - 2]@[c - 2] + mg_val_of(p.piece_type)
        } else {
            0
        },
        None => 0,
    }
}

/// What one square adds to Black's midgame sum; Black reads the tables
/// mirrored vertically.
pub open spec fn black_mg_cell(s: Seq<Square>, r: int, c: int) -> int {
    match sq_piece(s, r, c) {
        Some(p) => if p.color == Color::Black {
            mg_table_of(p.piece_type)@[9 - r]@[c - 2] + mg_val_of(p.piece_type)
        } else {
            0
        },
        None => 0,
    }
}

/// What one square adds to White's endgame sum.
pub open spec fn white_eg_cell(s: Seq<Square>, r: int, c: int) -> int {
    match sq_piece(s, r, c) {
        Some(p) => if p.color == Color::White {
            eg_table_of(p.piece_type)@[r - 2]@[c - 2] + eg_val_of(p.piece_type)
        } else {
            0
        },
        None => 0,
    }
}

/// What one square adds to Black's endgame sum.
pub open spec fn black_eg_cell(s: Seq<Square>, r: int, c: int) -> int {
    match sq_piece(s, r, c) {
        Some(p) => if p.color == Color::Black {
            eg_table_of(p.piece_type)@[9 - r]@[c - 2] + eg_val_of(p.piece_type)
        } else {
            0
        },
        None => 0,
    }
}

/// What one square adds to the game phase.
pub open spec fn phase_cell(s: Seq<Square>, r: int, c: int) -> int {
    match sq_piece(s, r, c) {
        Some(p) => phase_val_of(p.piece_type),
        None => 0,
    }
}

/// Row of the n-th playable square in row-major order.
pub open spec fn cell_row(n: int) -> int {
    2 + (n - 1) / 8
}

/// Column of the n-th playable square in row-major order.
pub open spec fn cell_col(n: int) -> int {
    2 + (n - 1) % 8
}

/// White's midgame sum over the first n playable squares.
pub open spec fn white_mg_sum(s: Seq<Square>, n: int) -> int
    decreases n,
{
    if n <= 0 {
        0
    } else {
        white_mg_sum(s, n - 1) + white_mg_cell(s, cell_row(n), cell_col(n))
    }
}

/// Black's midgame sum over the first n playable squares.
pub open spec fn black_mg_sum(s: Seq<Square>, n: int) -> int
    decreases n,
{
    if n <= 0 {
        0
    } else {
        black_mg_sum(s, n - 1) + black_mg_cell(s, cell_row(n), cell_col(n))
    }
}

/// White's endgame sum over the first n playable squares.
pub open spec fn white_eg_sum(s: Seq<Square>, n: int) -> int
    decreases n,
{
    if n <= 0 {
        0
    } else {
        white_eg_sum(s, n - 1) + white_eg_cell(s, cell_row(n), cell_col(n))
    }
}

/// Black's endgame sum over the first n playable squares.
pub open spec fn black_eg_sum(s: Seq<Square>, n: int) -> int
    decreases n,
{
    if n <= 0 {
        0
    } else {
        black_eg_sum(s, n - 1) + black_eg_cell(s, cell_row(n), cell_col(n))
    }
}

/// The game phase summed over the first n playable squares.
pub open spec fn phase_sum(s: Seq<Square>, n: int) -> int
    decreases n,
{
    if n <= 0 {
        0
    } else {
        phase_sum(s, n - 1) + phase_cell(s, cell_row(n), cell_col(n))
    }
}

/// The per-square bounds carry over to all five sums.
pub proof fn lemma_sums_bound(s: Seq<Square>, n: int)
    requires
        0 <= n <= 64,
    ensures
        -1300 * n <= white_mg_sum(s, n) <= 1300 * n,
        -1300 * n <= black_mg_sum(s, n) <= 1300 * n,
        -1300 * n <= white_eg_sum(s, n) <= 1300 * n,
        -1300 * n <= black_eg_sum(s, n) <= 1300 * n,
        0 <= phase_sum(s, n) <= 4 * n,
    decreases n,
{
    if n > 0 {
        lemma_sums_bound(s, n - 1);
        let r = cell_row(n);
        let c = cell_col(n);
        assert(2 <= r <= 9 && 2 <= c <= 9);
        match sq_piece(s, r, c) {
            Some(p) => {
                lemma_table_bounds(p.piece_type);
            },
            None => {},
        }
    }
}

/// The raw blended score before the phase division, from the side to move's
/// point of view.
pub open spec fn eval_raw(b: BoardModel) -> int {
    let white_mg = white_mg_sum(b.squares, 64);
    let black_mg = black_mg_sum(b.squares, 64);
    let white_eg = white_eg_sum(b.squares, 64);
    let black_eg = black_eg_sum(b.squares, 64);
    let game_phase = phase_sum(b.squares, 64);
    let mg_score = if b.active_color == Color::White {
        white_mg - black_mg
    } else {
        black_mg - white_mg
    };
    let eg_score = if b.active_color == Color::White {
        white_eg - black_eg
    } else {
        black_eg - white_eg
    };
    let mg_phase = if game_phase <= 24 {
        game_phase
    } else {
        24
    };
    let eg_phase = 24 - mg_phase;
    mg_score * mg_phase + eg_score * eg_phase
}

/// Division by 24 with truncation towards zero, as the machine divides.
pub open spec fn trunc_div_24(x: int) -> int {
    if x >= 0 {
        x / 24
    } else {
        -((-x) / 24)
    }
}

/// The static evaluation of a board: the phase-blended piece-square score,
/// always from the perspective of the side to move.
pub open spec fn spec_evaluate(b: BoardModel) -> int {
    trunc_div_24(eval_raw(b))
}

/// The same board with only the side to move flipped.
pub open spec fn flip_side(b: BoardModel) -> BoardModel {
    BoardModel { active_color: other(b.active_color), ..b }
}

/// Evaluation is symmetric under the side to move: flipping only
/// `active_color` on the same physical position negates the score.
pub proof fn lemma_evaluate_symmetry(b: BoardModel)
    ensures
        spec_evaluate(flip_side(b)) == -spec_evaluate(b),
{
    let f = flip_side(b);
    let wm = white_mg_sum(b.squares, 64);
    let bm = black_mg_sum(b.squares, 64);
    let we = white_eg_sum(b.squares, 64);
    let be = black_eg_sum(b.squares, 64);
    let ph = phase_sum(b.squares, 64);
    let mg_phase = if ph <= 24 {
        ph
    } else {
        24
    };
    let eg_phase = 24 - mg_phase;
    let ms = if b.active_color == Color::White {
        wm - bm
    } else {
        bm - wm
    };
    let es = if b.active_color == Color::White {
        we - be
    } else {
        be - we
    };
    assert(eval_raw(b) == ms * mg_phase + es * eg_phase);
    assert(eval_raw(f) == (-ms) * mg_phase + (-es) * eg_phase);
    assert((-ms) * mg_phase == -(ms * mg_phase)) by (nonlinear_arith);
    assert((-es) * eg_phase == -(es * eg_phase)) by (nonlinear_arith);
    assert(eval_raw(f) == -eval_raw(b));
}

/// Computes the static evaluation: for each piece, its material value plus
/// its placement bonus, blended between the midgame and endgame tables by
/// the remaining game phase, positive for the side to move.
#[verifier::rlimit(60)]
pub fn evaluate(board: &BoardState) -> (r: i32)
    ensures
        r as int == spec_evaluate(board@),
        -2000000 <= r <= 2000000,
{
    let mut white_mg: i32 = 0;
    let mut black_mg: i32 = 0;
    let mut white_eg: i32 = 0;
    let mut black_eg: i32 = 0;
    let mut game_phase: i32 = 0;

    let ghost s = board@.squares;

    let mut row: usize = 2;
    while row < 10
        invariant
            2 <= row <= 10,
            s == board@.squares,
            white_mg as int == white_mg_sum(s, (row - 2) * 8),
            black_mg as int == black_mg_sum(s, (row - 2) * 8),
            white_eg as int == white_eg_sum(s, (row - 2) * 8),
            black_eg as int == black_eg_sum(s, (row - 2) * 8),
            game_phase as int == phase_sum(s, (row - 2) * 8),
            -83200 <= white_mg <= 83200,
            -83200 <= black_mg <= 83200,
            -83200 <= white_eg <= 83200,
            -83200 <= black_eg <= 83200,
            0 <= game_phase <= 256,
        decreases 10 - row,
    {
        let mut col: usize = 2;
        while col < 10
            invariant
                2 <= row < 10,
                2 <= col <= 10,
                s == board@.squares,
                white_mg as int == white_mg_sum(s, (row - 2) * 8 + (col - 2)),
                black_mg as int == black_mg_sum(s, (row - 2) * 8 + (col - 2)),
                white_eg as int == white_eg_sum(s, (row - 2) * 8 + (col - 2)),
                black_eg as int == black_eg_sum(s, (row - 2) * 8 + (col - 2)),
                game_phase as int == phase_sum(s, (row - 2) * 8 + (col - 2)),
                -83200 <= white_mg <= 83200,
                -83200 <= black_mg <= 83200,
                -83200 <= white_eg <= 83200,
                -83200 <= black_eg <= 83200,
                0 <= game_phase <= 256,
            decreases 10 - col,
        {
            let ghost n: int = (row - 2) * 8 + (col - 2) + 1;
            proof {
                lemma_cell_index(row as int, col as int);
                lemma_table_bounds(PieceType::Pawn);
                lemma_table_bounds(PieceType::Knight);
                lemma_table_bounds(PieceType::Bishop);
                lemma_table_bounds(PieceType::Rook);
                lemma_table_bounds(PieceType::Queen);
                lemma_table_bounds(PieceType::King);
                lemma_sums_bound(s, n - 1);
            }
            match board.piece_on(row, col) {
                Some(piece) => {
                    game_phase = game_phase + get_game_phase_val(piece);
                    match piece.color {
                        Color::White => {
                            let mg_t = get_mg_table(piece);
                            let mg_row = mg_t[row - 2];
                            white_mg = white_mg + mg_row[col - 2] + get_mg_piece_val(piece);
                            let eg_t = get_eg_table(piece);
                            let eg_row = eg_t[row - 2];
                            white_eg = white_eg + eg_row[col - 2] + get_eg_piece_val(piece);
                        },
                        Color::Black => {
                            let mg_t = get_mg_table(piece);
                            let mg_row = mg_t[9 - row];
                            black_mg = black_mg + mg_row[col - 2] + get_mg_piece_val(piece);
                            let eg_t = get_eg_table(piece);
                            let eg_row = eg_t[9 - row];
                            black_eg = black_eg + eg_row[col - 2] + get_eg_piece_val(piece);
                        },
                    }
                },
                None => {},
            }
            proof {
                lemma_sums_bound(s, n);
            }
            col = col + 1;
        }
        row = row + 1;
    }

    let mg_score: i32;
    let eg_score: i32;
    match board.active_color {
        Color::White => {
            mg_score = white_mg - black_mg;
            eg_score = white_eg - black_eg;
        },
        Color::Black => {
            mg_score = black_mg - white_mg;
            eg_score = black_eg - white_eg;
        },
    }

    let mg_phase: i32 = if game_phase <= 24 {
        game_phase
    } else {
        24
    };
    let eg_phase: i32 = 24 - mg_phase;

    proof {
        assert(-170000 * 24 <= mg_score as int * mg_phase as int <= 170000 * 24)
            by (nonlinear_arith)
            requires
                -170000 <= mg_score as int <= 170000 && 0 <= mg_phase as int <= 24,
        ;
        assert(-170000 * 24 <= eg_score as int * eg_phase as int <= 170000 * 24)
            by (nonlinear_arith)
            requires
                -170000 <= eg_score as int <= 170000 && 0 <= eg_phase as int <= 24,
        ;
    }
    let total: i32 = mg_score * mg_phase + eg_score * eg_phase;
    total / 24
}

/// The per-square bounds that `lemma_table_bounds` gives carry over to every
/// cell function.
proof fn lemma_cell_index(row: int, col: int)
    requires
        2 <= row < 10,
        2 <= col < 10,
    ensures
        cell_row((row - 2) * 8 + (col - 2) + 1) == row,
        cell_col((row - 2) * 8 + (col - 2) + 1) == col,
{
    let k = (row - 2) * 8 + (col - 2);
    assert(k / 8 == row - 2 && k % 8 == col - 2) by (nonlinear_arith)
        requires
            2 <= row < 10 && 2 <= col < 10 && k == (row - 2) * 8 + (col - 2),
    ;
}

} // verus!
