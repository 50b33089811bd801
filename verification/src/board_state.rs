use vstd::prelude::*;
use crate::board_model::{
    enemy_at, enemy_of_kind, exactly_one_king, first_on_ray, king_at, on_grid, piece_at,
    spec_apply, sq_piece, sq_set, square_attacked, move_on_grid, wf_board, BoardModel,
    CastleRights,
};
use crate::chess_move::{valid_pos, Direction, Move, MoveType, Position};
use crate::color::Color;
use crate::piece::{Piece, PieceType};
use crate::square::Square;

verus! {

/// A full game state: the padded 12 by 12 grid of squares in row-major
/// order, the side to move, castling permissions, the en-passant target
/// square (the square a pawn just skipped over), and the last move played.
#[derive(Clone, Copy)]
pub struct BoardState {
    pub squares: [Square; 144],
    pub active_color: Color,
    pub castle_rights: CastleRights,
    pub en_passant: Option<Position>,
    pub last_move: Option<Move>,
}

impl View for BoardState {
    type V = BoardModel;

    open spec fn view(&self) -> BoardModel {
        BoardModel {
            squares: self.squares@,
            active_color: self.active_color,
            castle_rights: self.castle_rights,
            en_passant: self.en_passant,
            last_move: self.last_move,
        }
    }
}

/// Relies on num::abs: the absolute value of a signed integer, which is
/// exact for every value above the type's minimum.
#[verifier::external_body]
fn abs_i8(x: i8) -> (r: i8)
    requires
        x != i8::MIN,
    ensures
        r as int == if x >= 0 {
            x as int
        } else {
            -(x as int)
        },
{
    num::abs(x)
}

impl BoardState {
    /// The piece standing on a grid cell.
    pub fn piece_on(&self, row: usize, col: usize) -> (p: Option<Piece>)
        requires
            on_grid(row as int, col as int),
        ensures
            p == piece_at(self@, row as int, col as int),
    {
        self.squares[row * 12 + col].piece
    }

    /// Replaces the piece on a grid cell, keeping the cell's terrain color.
    fn set_sq(&mut self, row: usize, col: usize, p: Option<Piece>)
        requires
            on_grid(row as int, col as int),
        ensures
            final(self).squares@ == sq_set(old(self).squares@, row as int, col as int, p),
            final(self).active_color == old(self).active_color,
            final(self).castle_rights == old(self).castle_rights,
            final(self).en_passant == old(self).en_passant,
            final(self).last_move == old(self).last_move,
    {
        let i = row * 12 + col;
        let color = self.squares[i].color;
        self.squares[i] = Square { piece: p, color };
    }

    /// Applies a move to the board: performs exactly the square changes the
    /// move implies, flips the side to move, updates castling permissions,
    /// and recomputes the en-passant target. Legality is not checked here;
    /// the move generator only feeds legal moves through.
    pub fn make_move(&mut self, current_move: &Move)
        requires
            move_on_grid(*current_move),
        ensures
            final(self)@ == spec_apply(old(self)@, *current_move),
    {
        self.last_move = Some(*current_move);
        self.en_passant = None;

        match current_move.move_type {
            MoveType::Standard(val) => {
                self.set_sq(val.before.row, val.before.col, None);
                self.set_sq(val.after.row, val.after.col, Some(val.piece_moved));

                match val.piece_moved.piece_type {
                    PieceType::Pawn => {
                        let dist = abs_i8(val.after.row as i8 - val.before.row as i8);
                        if dist == 2 {
                            self.en_passant = Some(
                                Position {
                                    row: (val.before.row + val.after.row) / 2,
                                    col: val.after.col,
                                },
                            );
                        }
                    },
                    PieceType::King => {
                        match val.piece_moved.color {
                            Color::White => {
                                self.castle_rights.can_castle_white_kingside = false;
                                self.castle_rights.can_castle_white_queenside = false;
                            },
                            Color::Black => {
                                self.castle_rights.can_castle_black_kingside = false;
                                self.castle_rights.can_castle_black_queenside = false;
                            },
                        }
                    },
                    PieceType::Rook => {
                        match val.piece_moved.color {
                            Color::White => {
                                if val.before.row == 9 && val.before.col == 2 {
                                    self.castle_rights.can_castle_white_queenside = false;
                                } else if val.before.row == 9 && val.before.col == 9 {
                                    self.castle_rights.can_castle_white_kingside = false;
                                }
                            },
                            Color::Black => {
                                if val.before.row == 2 && val.before.col == 2 {
                                    self.castle_rights.can_castle_black_queenside = false;
                                } else if val.before.row == 2 && val.before.col == 9 {
                                    self.castle_rights.can_castle_black_kingside = false;
                                }
                            },
                        }
                    },
                    _ => {},
                }

                if let Some(piece) = current_move.piece_captured {
                    if piece.piece_type == PieceType::Rook {
                        self.clear_corner_rights(val.after.row, val.after.col);
                    }
                }
            },
            MoveType::Castle(val) => {
                let row: usize = match val.color {
                    Color::White => {
                        self.castle_rights.can_castle_white_kingside = false;
                        self.castle_rights.can_castle_white_queenside = false;
                        9
                    },
                    Color::Black => {
                        self.castle_rights.can_castle_black_kingside = false;
                        self.castle_rights.can_castle_black_queenside = false;
                        2
                    },
                };
                let king = Piece { piece_type: PieceType::King, color: self.active_color };
                let rook = Piece { piece_type: PieceType::Rook, color: self.active_color };
                if val.is_kingside {
                    self.set_sq(row, 6, None);
                    self.set_sq(row, 9, None);
                    self.set_sq(row, 8, Some(king));
                    self.set_sq(row, 7, Some(rook));
                } else {
                    self.set_sq(row, 6, None);
                    self.set_sq(row, 2, None);
                    self.set_sq(row, 4, Some(king));
                    self.set_sq(row, 5, Some(rook));
                }
            },
            MoveType::Promotion(val) => {
                self.set_sq(val.before.row, val.before.col, None);
                self.set_sq(val.after.row, val.after.col, Some(val.promote_to));
                if let Some(piece) = current_move.piece_captured {
                    if piece.piece_type == PieceType::Rook {
                        self.clear_corner_rights(val.after.row, val.after.col);
                    }
                }
            },
            MoveType::EnPassant(val) => {
                let pawn = Piece { piece_type: PieceType::Pawn, color: self.active_color };
                self.set_sq(val.before.row, val.before.col, None);
                self.set_sq(val.after.row, val.after.col, Some(pawn));
                self.set_sq(val.en_passant_pos.row, val.en_passant_pos.col, None);
            },
        }

        match self.active_color {
            Color::Black => self.active_color = Color::White,
            Color::White => self.active_color = Color::Black,
        }
    }

    /// Forfeits the castling flag owned by a rook home square, when the
    /// given cell is one.
    fn clear_corner_rights(&mut self, row: usize, col: usize)
        ensures
            final(self).castle_rights == crate::board_model::clear_rights_corner(
                old(self).castle_rights,
                row as int,
                col as int,
            ),
            final(self).squares == old(self).squares,
            final(self).active_color == old(self).active_color,
            final(self).en_passant == old(self).en_passant,
            final(self).last_move == old(self).last_move,
    {
        if row == 2 && col == 2 {
            self.castle_rights.can_castle_black_queenside = false;
        } else if row == 2 && col == 9 {
            self.castle_rights.can_castle_black_kingside = false;
        } else if row == 9 && col == 2 {
            self.castle_rights.can_castle_white_queenside = false;
        } else if row == 9 && col == 9 {
            self.castle_rights.can_castle_white_kingside = false;
        }
    }

    /// The first piece met walking from `start` in direction `dir`, within
    /// the playable board.
    fn ray_hits(&self, start: Position, dir: Direction) -> (res: Option<Piece>)
        requires
            valid_pos(start.row as int, start.col as int),
        ensures
            res == first_on_ray(self@, start.row as int, start.col as int, dir),
    {
        let mut cur = start;
        loop
            invariant
                valid_pos(cur.row as int, cur.col as int),
                first_on_ray(self@, start.row as int, start.col as int, dir) == first_on_ray(
                    self@,
                    cur.row as int,
                    cur.col as int,
                    dir,
                ),
            decreases crate::board_model::ray_measure(cur.row as int, cur.col as int, dir),
        {
            let next = cur.next_position(&dir);
            if !next.is_valid_position() {
                return None;
            }
            match self.piece_on(next.row, next.col) {
                Some(p) => {
                    return Some(p);
                },
                None => {
                    cur = next;
                },
            }
        }
    }

    /// Whether an enemy rook or queen, or an enemy bishop or queen, is the
    /// first piece on the ray from `start` in direction `dir`.
    fn ray_threat(&self, start: Position, dir: Direction, k1: PieceType, k2: PieceType, color:
        Color) -> (res: bool)
        requires
            valid_pos(start.row as int, start.col as int),
        ensures
            res == enemy_of_kind(
                first_on_ray(self@, start.row as int, start.col as int, dir),
                color,
                k1,
                k2,
            ),
    {
        match self.ray_hits(start, dir) {
            Some(p) => p.color != color && (p.piece_type == k1 || p.piece_type == k2),
            None => false,
        }
    }

    /// Whether an enemy piece (of the side opposite to `color`) of kind `k`
    /// stands on the grid cell.
    fn enemy_kind_on(&self, row: usize, col: usize, color: Color, k: PieceType) -> (res: bool)
        requires
            on_grid(row as int, col as int),
        ensures
            res == enemy_at(self@, color, row as int, col as int, k),
    {
        match self.piece_on(row, col) {
            Some(p) => p.color != color && p.piece_type == k,
            None => false,
        }
    }

    /// Decodes a position from FEN notation: piece placement, side to move,
    /// castling flags, and the en-passant target square (the last two fields
    /// are ignored). Malformed text is rejected, as is any position that
    /// breaks the board's structural invariant; castling flags whose king or
    /// rook is not at home are dropped, so the decoder always hands the core
    /// a structurally valid state.
    pub fn new(fen: &str) -> (res: Result<BoardState, &str>)
        ensures
            res matches Ok(b) ==> wf_board(b@) && b@.last_move is None,
    {
        let mut squares: [Square; 144] = [Square { piece: None, color: Color::White };144];

        // Fixed checkerboard terrain: color from the parity of row + column.
        let mut x: usize = 2;
        while x < 10
            invariant
                2 <= x <= 10,
            decreases 10 - x,
        {
            let mut y: usize = 2;
            while y < 10
                invariant
                    2 <= x < 10,
                    y <= 10,
                decreases 10 - y,
            {
                let color = if (x + y) % 2 == 0 {
                    Color::White
                } else {
                    Color::Black
                };
                squares[x * 12 + y] = Square { piece: None, color };
                y = y + 1;
            }
            x = x + 1;
        }

        let n = fen.unicode_len();
        if n >= usize::MAX {
            return Err("Invalid fen string!");
        }

        // Exactly six space-separated fields.
        let mut field_start: [usize; 6] = [0;6];
        let mut field_end: [usize; 6] = [0;6];
        let mut fcount: usize = 0;
        let mut start: usize = 0;
        let mut i: usize = 0;
        while i <= n
            invariant
                i <= n + 1,
                start <= i,
                n < usize::MAX,
                n == fen@.len(),
                fcount <= 6,
                forall|k: int| 0 <= k < 6 ==> #[trigger] field_end@[k] <= n,
                forall|k: int| 0 <= k < 6 ==> #[trigger] field_start@[k] <= field_end@[k],
            decreases n + 1 - i,
        {
            if i == n || fen.get_char(i) == ' ' {
                if fcount >= 6 {
                    return Err("Invalid fen string!");
                }
                if start > i {
                    return Err("Invalid fen string!");
                }
                field_start[fcount] = start;
                field_end[fcount] = i;
                fcount = fcount + 1;
                start = i + 1;
            }
            i = i + 1;
        }
        if fcount != 6 {
            return Err("Invalid fen string!");
        }

        // Field one: the piece placement, eight rows separated by slashes.
        let pe = field_end[0];
        let mut row: usize = 0;
        let mut col: usize = 2;
        let mut j: usize = field_start[0];
        while j < pe
            invariant
                n == fen@.len(),
                pe <= n,
                row <= 7,
                2 <= col <= 11,
            decreases pe - j,
        {
            let ch = fen.get_char(j);
            if ch == '/' {
                if row >= 7 {
                    return Err("Invalid fen string!");
                }
                row = row + 1;
                col = 2;
            } else {
                let digit: Option<usize> = if ch == '0' {
                    Some(0)
                } else if ch == '1' {
                    Some(1)
                } else if ch == '2' {
                    Some(2)
                } else if ch == '3' {
                    Some(3)
                } else if ch == '4' {
                    Some(4)
                } else if ch == '5' {
                    Some(5)
                } else if ch == '6' {
                    Some(6)
                } else if ch == '7' {
                    Some(7)
                } else if ch == '8' {
                    Some(8)
                } else if ch == '9' {
                    Some(9)
                } else {
                    None
                };
                match digit {
                    Some(d) => {
                        if col + d > 11 {
                            return Err("Invalid fen string!");
                        }
                        col = col + d;
                    },
                    None => {
                        let piece: Piece = if ch == 'r' {
                            Piece { piece_type: PieceType::Rook, color: Color::Black }
                        } else if ch == 'n' {
                            Piece { piece_type: PieceType::Knight, color: Color::Black }
                        } else if ch == 'b' {
                            Piece { piece_type: PieceType::Bishop, color: Color::Black }
                        } else if ch == 'q' {
                            Piece { piece_type: PieceType::Queen, color: Color::Black }
                        } else if ch == 'k' {
                            Piece { piece_type: PieceType::King, color: Color::Black }
                        } else if ch == 'p' {
                            Piece { piece_type: PieceType::Pawn, color: Color::Black }
                        } else if ch == 'R' {
                            Piece { piece_type: PieceType::Rook, color: Color::White }
                        } else if ch == 'N' {
                            Piece { piece_type: PieceType::Knight, color: Color::White }
                        } else if ch == 'B' {
                            Piece { piece_type: PieceType::Bishop, color: Color::White }
                        } else if ch == 'Q' {
                            Piece { piece_type: PieceType::Queen, color: Color::White }
                        } else if ch == 'K' {
                            Piece { piece_type: PieceType::King, color: Color::White }
                        } else if ch == 'P' {
                            Piece { piece_type: PieceType::Pawn, color: Color::White }
                        } else {
                            return Err("Not a valid fen piece!");
                        };
                        if col > 9 {
                            return Err("Invalid fen string!");
                        }
                        let idx = (row + 2) * 12 + col;
                        let terrain = squares[idx].color;
                        squares[idx] = Square { piece: Some(piece), color: terrain };
                        col = col + 1;
                    },
                }
            }
            j = j + 1;
        }
        if row != 7 {
            return Err("Invalid fen string!");
        }

        // Field two: the side to move.
        let active_color: Color;
        if field_end[1] - field_start[1] == 1 && fen.get_char(field_start[1]) == 'w' {
            active_color = Color::White;
        } else if field_end[1] - field_start[1] == 1 && fen.get_char(field_start[1]) == 'b' {
            active_color = Color::Black;
        } else {
            return Err("fen string color malformed!");
        }

        // Field three: the castling flags.
        let mut can_castle_white_kingside = false;
        let mut can_castle_white_queenside = false;
        let mut can_castle_black_kingside = false;
        let mut can_castle_black_queenside = false;
        let mut k = field_start[2];
        let ke = field_end[2];
        while k < ke
            invariant
                n == fen@.len(),
                ke <= n,
            decreases ke - k,
        {
            let ch = fen.get_char(k);
            if ch == 'K' {
                can_castle_white_kingside = true;
            } else if ch == 'Q' {
                can_castle_white_queenside = true;
            } else if ch == 'k' {
                can_castle_black_kingside = true;
            } else if ch == 'q' {
                can_castle_black_queenside = true;
            } else if ch == '-' {
            } else {
                return Err("fen string castling info is malformed!");
            }
            k = k + 1;
        }
        let castle_rights = CastleRights {
            can_castle_white_kingside,
            can_castle_white_queenside,
            can_castle_black_kingside,
            can_castle_black_queenside,
        };

        // Field four: the en-passant target, the square a pawn just skipped.
        let es = field_start[3];
        let ee = field_end[3];
        let en_passant: Option<Position>;
        if ee - es == 1 && fen.get_char(es) == '-' {
            en_passant = None;
        } else if ee - es == 2 {
            let letter = fen.get_char(es);
            let ep_col: usize = if letter == 'a' {
                2
            } else if letter == 'b' {
                3
            } else if letter == 'c' {
                4
            } else if letter == 'd' {
                5
            } else if letter == 'e' {
                6
            } else if letter == 'f' {
                7
            } else if letter == 'g' {
                8
            } else if letter == 'h' {
                9
            } else {
                return Err("fen string enpassant malformed!");
            };
            let digit = fen.get_char(es + 1);
            let ep_row: usize = if digit == '1' {
                9
            } else if digit == '2' {
                8
            } else if digit == '3' {
                7
            } else if digit == '4' {
                6
            } else if digit == '5' {
                5
            } else if digit == '6' {
                4
            } else if digit == '7' {
                3
            } else if digit == '8' {
                2
            } else {
                return Err("fen string enpassant malformed!");
            };
            en_passant = Some(Position { row: ep_row, col: ep_col });
        } else {
            return Err("fen string enpassant malformed!");
        }

        let mut board = BoardState {
            squares,
            active_color,
            castle_rights,
            en_passant,
            last_move: None,
        };

        // A castling flag without its king and rook at home is meaningless:
        // drop it rather than hand the core an inconsistent state.
        if board.castle_rights.can_castle_white_kingside && !board.right_backed(
            9,
            9,
            Color::White,
        ) {
            board.castle_rights.can_castle_white_kingside = false;
        }
        if board.castle_rights.can_castle_white_queenside && !board.right_backed(
            9,
            2,
            Color::White,
        ) {
            board.castle_rights.can_castle_white_queenside = false;
        }
        if board.castle_rights.can_castle_black_kingside && !board.right_backed(
            2,
            9,
            Color::Black,
        ) {
            board.castle_rights.can_castle_black_kingside = false;
        }
        if board.castle_rights.can_castle_black_queenside && !board.right_backed(
            2,
            2,
            Color::Black,
        ) {
            board.castle_rights.can_castle_black_queenside = false;
        }

        if !board.is_well_formed() {
            return Err("Invalid fen string!");
        }
        Ok(board)
    }

    /// Whether exactly one king of the given color stands on the playable
    /// board.
    fn one_king_check(&self, color: Color) -> (r: bool)
        ensures
            r == exactly_one_king(self@, color),
    {
        let mut found = false;
        let mut dup = false;
        let mut kr: usize = 2;
        let mut kc: usize = 2;
        let mut x: usize = 2;
        while x < 10
            invariant
                2 <= x <= 10,
                found ==> king_at(self@, color, kr as int, kc as int),
                !found ==> forall|r: int, c: int|
                    king_at(self@, color, r, c) ==> !(r < x),
                found && !dup ==> forall|r: int, c: int|
                    king_at(self@, color, r, c) && r < x ==> r == kr as int && c == kc as int,
                dup ==> exists|r1: int, c1: int, r2: int, c2: int|
                    king_at(self@, color, r1, c1) && king_at(self@, color, r2, c2) && !(r1 == r2
                        && c1 == c2),
            decreases 10 - x,
        {
            let mut y: usize = 2;
            while y < 10
                invariant
                    2 <= x < 10,
                    2 <= y <= 10,
                    found ==> king_at(self@, color, kr as int, kc as int),
                    !found ==> forall|r: int, c: int|
                        king_at(self@, color, r, c) ==> !(r < x || (r == x && c < y)),
                    found && !dup ==> forall|r: int, c: int|
                        king_at(self@, color, r, c) && (r < x || (r == x && c < y)) ==> r
                            == kr as int && c == kc as int,
                    dup ==> exists|r1: int, c1: int, r2: int, c2: int|
                        king_at(self@, color, r1, c1) && king_at(self@, color, r2, c2) && !(r1 == r2
                            && c1 == c2),
                decreases 10 - y,
            {
                let is_king = match self.piece_on(x, y) {
                    Some(p) => p.piece_type == PieceType::King && p.color == color,
                    None => false,
                };
                if is_king {
                    if !found {
                        found = true;
                        kr = x;
                        kc = y;
                    } else {
                        if !(kr == x && kc == y) {
                            proof {
                                assert(king_at(self@, color, kr as int, kc as int));
                                assert(king_at(self@, color, x as int, y as int));
                            }
                            dup = true;
                        }
                    }
                }
                y = y + 1;
            }
            x = x + 1;
        }
        if found && !dup {
            proof {
                assert(exactly_one_king(self@, color)) by {
                    assert(king_at(self@, color, kr as int, kc as int));
                }
            }
        }
        found && !dup
    }

    /// Whether a flag's king and rook stand on their home squares.
    fn right_backed(&self, king_r: usize, rook_c: usize, color: Color) -> (r: bool)
        requires
            king_r == 2 || king_r == 9,
            rook_c == 2 || rook_c == 9,
        ensures
            r == (piece_at(self@, king_r as int, 6) == Some(
                Piece { piece_type: PieceType::King, color },
            ) && piece_at(self@, king_r as int, rook_c as int) == Some(
                Piece { piece_type: PieceType::Rook, color },
            )),
    {
        let king_ok = match self.piece_on(king_r, 6) {
            Some(p) => p.piece_type == PieceType::King && p.color == color,
            None => false,
        };
        let rook_ok = match self.piece_on(king_r, rook_c) {
            Some(p) => p.piece_type == PieceType::Rook && p.color == color,
            None => false,
        };
        king_ok && rook_ok
    }

    /// Whether the board satisfies its structural invariant: empty border,
    /// no pawn on its own back rank, a playable en-passant square, exactly
    /// one king a side, and castling flags backed by their pieces.
    pub fn is_well_formed(&self) -> (r: bool)
        ensures
            r == wf_board(self@),
    {
        // The border must be empty and no pawn may stand on its back rank.
        let mut x: usize = 0;
        while x < 12
            invariant
                x <= 12,
                forall|r: int, c: int|
                    on_grid(r, c) && !valid_pos(r, c) && r < x ==> #[trigger] sq_piece(
                        self@.squares,
                        r,
                        c,
                    ) is None,
                forall|r: int, c: int|
                    r < x && #[trigger] piece_at(self@, r, c) is Some ==> ({
                        let p = piece_at(self@, r, c).unwrap();
                        (p.piece_type == PieceType::Pawn && p.color == Color::White ==> r >= 3) && (
                        p.piece_type == PieceType::Pawn && p.color == Color::Black ==> r <= 8)
                    }),
            decreases 12 - x,
        {
            let mut y: usize = 0;
            while y < 12
                invariant
                    x < 12,
                    y <= 12,
                    forall|r: int, c: int|
                        on_grid(r, c) && !valid_pos(r, c) && (r < x || (r == x && c < y))
                            ==> #[trigger] sq_piece(self@.squares, r, c) is None,
                    forall|r: int, c: int|
                        (r < x || (r == x && c < y)) && #[trigger] piece_at(self@, r, c) is Some
                            ==> ({
                            let p = piece_at(self@, r, c).unwrap();
                            (p.piece_type == PieceType::Pawn && p.color == Color::White ==> r >= 3)
                                && (p.piece_type == PieceType::Pawn && p.color == Color::Black ==> r
                                <= 8)
                        }),
                decreases 12 - y,
            {
                let on_playable = x >= 2 && x <= 9 && y >= 2 && y <= 9;
                match self.piece_on(x, y) {
                    Some(p) => {
                        if !on_playable {
                            return false;
                        }
                        if p.piece_type == PieceType::Pawn {
                            if p.color == Color::White && x < 3 {
                                return false;
                            }
                            if p.color == Color::Black && x > 8 {
                                return false;
                            }
                        }
                    },
                    None => {},
                }
                y = y + 1;
            }
            x = x + 1;
        }

        // The en-passant target, when set, must be playable.
        match self.en_passant {
            Some(p) => {
                if !p.is_valid_position() {
                    return false;
                }
            },
            None => {},
        }

        // Exactly one king a side.
        if !self.one_king_check(Color::White) {
            return false;
        }
        if !self.one_king_check(Color::Black) {
            return false;
        }

        // Each castling flag still set must be backed by its pieces.
        if self.castle_rights.can_castle_white_kingside && !self.right_backed(9, 9, Color::White) {
            return false;
        }
        if self.castle_rights.can_castle_white_queenside && !self.right_backed(9, 2, Color::White) {
            return false;
        }
        if self.castle_rights.can_castle_black_kingside && !self.right_backed(2, 9, Color::Black) {
            return false;
        }
        if self.castle_rights.can_castle_black_queenside && !self.right_backed(2, 2, Color::Black) {
            return false;
        }

        true
    }

    /// Answers whether the given side's king square (or a square passed in
    /// its stead, as castling checks do) is attacked by the other side. With
    /// no square passed, the king is located first; the board must then hold
    /// exactly one king of that color.
    pub fn is_in_check(self, color: Color, passed_king_pos: Option<Position>) -> (r: bool)
        requires
            passed_king_pos matches Some(p) ==> valid_pos(p.row as int, p.col as int),
            passed_king_pos is None ==> exactly_one_king(self@, color),
        ensures
            passed_king_pos matches Some(p) ==> r == square_attacked(
                self@,
                color,
                p.row as int,
                p.col as int,
            ),
            passed_king_pos is None ==> forall|kr: int, kc: int|
                king_at(self@, color, kr, kc) ==> r == square_attacked(self@, color, kr, kc),
    {
        let king_pos: Position;
        match passed_king_pos {
            Some(val) => {
                king_pos = val;
            },
            None => {
                let mut found = false;
                let mut king_row: usize = 2;
                let mut king_col: usize = 2;
                let mut x: usize = 2;
                while x < 10
                    invariant
                        2 <= x <= 10,
                        found ==> king_at(self@, color, king_row as int, king_col as int),
                        forall|r: int, c: int|
                            king_at(self@, color, r, c) && r < x ==> found,
                    decreases 10 - x,
                {
                    let mut y: usize = 2;
                    while y < 10
                        invariant
                            2 <= x < 10,
                            2 <= y <= 10,
                            found ==> king_at(self@, color, king_row as int, king_col as int),
                            forall|r: int, c: int|
                                king_at(self@, color, r, c) && (r < x || (r == x && c < y))
                                    ==> found,
                        decreases 10 - y,
                    {
                        match self.piece_on(x, y) {
                            Some(piece) => {
                                if piece.piece_type == PieceType::King && piece.color == color {
                                    found = true;
                                    king_row = x;
                                    king_col = y;
                                }
                            },
                            None => {},
                        }
                        y = y + 1;
                    }
                    x = x + 1;
                }
                assert(found);
                king_pos = Position { row: king_row, col: king_col };
            },
        }

        // Rook or queen along a rank or file.
        if self.ray_threat(king_pos, Direction::Up, PieceType::Rook, PieceType::Queen, color) {
            return true;
        }
        if self.ray_threat(king_pos, Direction::Down, PieceType::Rook, PieceType::Queen, color) {
            return true;
        }
        if self.ray_threat(king_pos, Direction::Left, PieceType::Rook, PieceType::Queen, color) {
            return true;
        }
        if self.ray_threat(king_pos, Direction::Right, PieceType::Rook, PieceType::Queen, color) {
            return true;
        }

        // Bishop or queen along a diagonal.
        if self.ray_threat(king_pos, Direction::UpRight, PieceType::Bishop, PieceType::Queen, color)
        {
            return true;
        }
        if self.ray_threat(
            king_pos,
            Direction::DownRight,
            PieceType::Bishop,
            PieceType::Queen,
            color,
        ) {
            return true;
        }
        if self.ray_threat(king_pos, Direction::UpLeft, PieceType::Bishop, PieceType::Queen, color)
        {
            return true;
        }
        if self.ray_threat(
            king_pos,
            Direction::DownLeft,
            PieceType::Bishop,
            PieceType::Queen,
            color,
        ) {
            return true;
        }

        // A pawn on one of the two diagonally forward squares.
        let pr = king_pos.row;
        let pc = king_pos.col;
        match color {
            Color::White => {
                if self.enemy_kind_on(pr - 1, pc - 1, color, PieceType::Pawn) {
                    return true;
                }
                if self.enemy_kind_on(pr - 1, pc + 1, color, PieceType::Pawn) {
                    return true;
                }
            },
            Color::Black => {
                if self.enemy_kind_on(pr + 1, pc - 1, color, PieceType::Pawn) {
                    return true;
                }
                if self.enemy_kind_on(pr + 1, pc + 1, color, PieceType::Pawn) {
                    return true;
                }
            },
        }

        // A knight on one of the eight knight offsets.
        if self.enemy_kind_on(pr - 2, pc + 1, color, PieceType::Knight) {
            return true;
        }
        if self.enemy_kind_on(pr - 2, pc - 1, color, PieceType::Knight) {
            return true;
        }
        if self.enemy_kind_on(pr + 2, pc + 1, color, PieceType::Knight) {
            return true;
        }
        if self.enemy_kind_on(pr + 2, pc - 1, color, PieceType::Knight) {
            return true;
        }
        if self.enemy_kind_on(pr - 1, pc - 2, color, PieceType::Knight) {
            return true;
        }
        if self.enemy_kind_on(pr + 1, pc - 2, color, PieceType::Knight) {
            return true;
        }
        if self.enemy_kind_on(pr - 1, pc + 2, color, PieceType::Knight) {
            return true;
        }
        if self.enemy_kind_on(pr + 1, pc + 2, color, PieceType::Knight) {
            return true;
        }

        // The enemy king on an adjacent square.
        if self.enemy_kind_on(pr - 1, pc - 1, color, PieceType::King) {
            return true;
        }
        if self.enemy_kind_on(pr - 1, pc, color, PieceType::King) {
            return true;
        }
        if self.enemy_kind_on(pr - 1, pc + 1, color, PieceType::King) {
            return true;
        }
        if self.enemy_kind_on(pr, pc - 1, color, PieceType::King) {
            return true;
        }
        if self.enemy_kind_on(pr, pc + 1, color, PieceType::King) {
            return true;
        }
        if self.enemy_kind_on(pr + 1, pc - 1, color, PieceType::King) {
            return true;
        }
        if self.enemy_kind_on(pr + 1, pc, color, PieceType::King) {
            return true;
        }
        if self.enemy_kind_on(pr + 1, pc + 1, color, PieceType::King) {
            return true;
        }

        false
    }
}

} // verus!
