use vstd::prelude::*;
use crate::color::Color;
use crate::piece::{Piece, PieceType};

verus! {

/// Coordinates of a cell in the padded 12 by 12 grid. The playable 8 by 8
/// board occupies rows and columns 2 through 9; the two-cell border around it
/// is never occupied, so offset arithmetic can step outside the playable area
/// and be rejected by `is_valid_position` before any square is read.
#[derive(PartialEq, Eq, Structural, Hash, Clone, Copy, Debug)]
pub struct Position {
    pub row: usize,
    pub col: usize,
}

/// One of the eight directions a ray or a single step can take, from White's
/// point of view.
#[derive(Clone, Copy, Debug)]
pub enum Direction {
    Right,
    Left,
    Up,
    Down,
    UpRight,
    UpLeft,
    DownRight,
    DownLeft,
}

/// Row change of one step in the given direction.
pub open spec fn row_delta(d: Direction) -> int {
    match d {
        Direction::Up | Direction::UpRight | Direction::UpLeft => -1,
        Direction::Down | Direction::DownRight | Direction::DownLeft => 1,
        Direction::Right | Direction::Left => 0,
    }
}

/// Column change of one step in the given direction.
pub open spec fn col_delta(d: Direction) -> int {
    match d {
        Direction::Right | Direction::UpRight | Direction::DownRight => 1,
        Direction::Left | Direction::UpLeft | Direction::DownLeft => -1,
        Direction::Up | Direction::Down => 0,
    }
}

/// A position lies on the playable 8 by 8 part of the grid.
pub open spec fn valid_pos(r: int, c: int) -> bool {
    2 <= r <= 9 && 2 <= c <= 9
}

/// Every move is of one of four kinds.
#[derive(PartialEq, Eq, Structural, Clone, Copy, Debug)]
pub enum MoveType {
    /// Relocation of one piece, captures and the pawn double-push included.
    Standard(StandardMove),
    /// Castling, either side.
    Castle(CastleMove),
    /// A pawn reaching the far rank and turning into another piece.
    Promotion(PromotionMove),
    /// The en-passant capture of a pawn that just double-pushed.
    EnPassant(EnPassantMove),
}

/// An ordinary relocation of `piece_moved` from `before` to `after`.
#[derive(PartialEq, Eq, Structural, Clone, Copy, Debug)]
pub struct StandardMove {
    pub before: Position,
    pub after: Position,
    pub piece_moved: Piece,
}

/// Castling; the squares involved are implied by the color and the side.
#[derive(PartialEq, Eq, Structural, Clone, Copy, Debug)]
pub struct CastleMove {
    pub is_kingside: bool,
    pub color: Color,
}

/// A pawn move from `before` to the far rank at `after`, leaving a piece of
/// `promote_to`'s kind there.
#[derive(PartialEq, Eq, Structural, Clone, Copy, Debug)]
pub struct PromotionMove {
    pub before: Position,
    pub after: Position,
    pub promote_to: Piece,
}

/// A diagonal pawn move onto the empty en-passant target square `after`,
/// capturing the pawn standing on `en_passant_pos`.
#[derive(PartialEq, Eq, Structural, Clone, Copy, Debug)]
pub struct EnPassantMove {
    pub before: Position,
    pub after: Position,
    pub en_passant_pos: Position,
}

/// A move together with the piece it captures, if any. `piece_captured` is
/// always None for castling.
#[derive(PartialEq, Eq, Structural, Clone, Copy, Debug)]
pub struct Move {
    pub move_type: MoveType,
    pub piece_captured: Option<Piece>,
}

/// Text for one column, in algebraic notation.
pub open spec fn col_text(c: int) -> Seq<char> {
    if c == 2 {
        "a"@
    } else if c == 3 {
        "b"@
    } else if c == 4 {
        "c"@
    } else if c == 5 {
        "d"@
    } else if c == 6 {
        "e"@
    } else if c == 7 {
        "f"@
    } else if c == 8 {
        "g"@
    } else if c == 9 {
        "h"@
    } else {
        "Not a valid Position!!"@
    }
}

/// Text for one row, in algebraic notation: row 9 is rank 1, row 2 is rank 8.
pub open spec fn row_text(r: int) -> Seq<char> {
    if r == 0 {
        "10"@
    } else if r == 1 {
        "9"@
    } else if r == 2 {
        "8"@
    } else if r == 3 {
        "7"@
    } else if r == 4 {
        "6"@
    } else if r == 5 {
        "5"@
    } else if r == 6 {
        "4"@
    } else if r == 7 {
        "3"@
    } else if r == 8 {
        "2"@
    } else if r == 9 {
        "1"@
    } else {
        "0"@
    }
}

/// Text of a position, its column letter followed by its rank number.
pub open spec fn pos_text(p: Position) -> Seq<char> {
    col_text(p.col as int) + row_text(p.row as int)
}

/// The rows of every position a move names are small enough to print.
pub open spec fn move_printable(m: Move) -> bool {
    match m.move_type {
        MoveType::Standard(s) => s.before.row <= 10 && s.after.row <= 10,
        MoveType::Promotion(s) => s.before.row <= 10 && s.after.row <= 10,
        MoveType::EnPassant(s) => s.before.row <= 10 && s.after.row <= 10,
        MoveType::Castle(_) => true,
    }
}

/// Text of a move: origin and destination squares, or the castling symbol.
pub open spec fn move_text(m: Move) -> Seq<char> {
    match m.move_type {
        MoveType::Standard(s) => pos_text(s.before) + pos_text(s.after),
        MoveType::Promotion(s) => pos_text(s.before) + pos_text(s.after),
        MoveType::EnPassant(s) => pos_text(s.before) + pos_text(s.after),
        MoveType::Castle(c) => if c.is_kingside {
            "0-0"@
        } else {
            "0-0-0"@
        },
    }
}

impl Move {
    /// Renders the move in coordinate notation, castling as 0-0 or 0-0-0.
    pub fn to_string(self) -> (r: String)
        requires
            move_printable(self),
        ensures
            r@ == move_text(self),
    {
        match self.move_type {
            MoveType::Standard(val) => {
                val.before.to_string().concat(val.after.to_string().as_str())
            },
            MoveType::Promotion(val) => {
                val.before.to_string().concat(val.after.to_string().as_str())
            },
            MoveType::EnPassant(val) => {
                val.before.to_string().concat(val.after.to_string().as_str())
            },
            MoveType::Castle(val) => {
                if val.is_kingside {
                    String::from_str("0-0")
                } else {
                    String::from_str("0-0-0")
                }
            },
        }
    }
}

/// Whether two moves are the same move, field for field.
pub(crate) fn moves_equal(a: Move, b: Move) -> (r: bool)
    ensures
        r == (a == b),
{
    let type_eq = match (a.move_type, b.move_type) {
        (MoveType::Standard(x), MoveType::Standard(y)) => x.before == y.before && x.after == y.after
            && x.piece_moved == y.piece_moved,
        (MoveType::Castle(x), MoveType::Castle(y)) => x.is_kingside == y.is_kingside && x.color
            == y.color,
        (MoveType::Promotion(x), MoveType::Promotion(y)) => x.before == y.before && x.after
            == y.after && x.promote_to == y.promote_to,
        (MoveType::EnPassant(x), MoveType::EnPassant(y)) => x.before == y.before && x.after
            == y.after && x.en_passant_pos == y.en_passant_pos,
        _ => false,
    };
    let cap_eq = match (a.piece_captured, b.piece_captured) {
        (Some(x), Some(y)) => x == y,
        (None, None) => true,
        _ => false,
    };
    type_eq && cap_eq
}

/// A character that counts as blank when reading a position from text.
pub open spec fn is_space_char(c: char) -> bool {
    c == ' ' || c == '\t' || c == '\n' || c == '\r'
}

/// Index of the first non-blank character at or after `i`, or the length when
/// only blanks remain.
pub open spec fn next_nonspace(s: Seq<char>, i: int) -> int
    decreases s.len() - i,
{
    if i >= s.len() {
        s.len() as int
    } else if is_space_char(s[i]) {
        next_nonspace(s, i + 1)
    } else {
        i
    }
}

/// Index of the first blank character at or after `i`, or the length when
/// none follows.
pub open spec fn next_space(s: Seq<char>, i: int) -> int
    decreases s.len() - i,
{
    if i >= s.len() {
        s.len() as int
    } else if !is_space_char(s[i]) {
        next_space(s, i + 1)
    } else {
        i
    }
}

/// Board column named by a file letter, case-insensitive.
pub open spec fn letter_col(c: char) -> Option<int> {
    if c == 'a' || c == 'A' {
        Some(2int)
    } else if c == 'b' || c == 'B' {
        Some(3int)
    } else if c == 'c' || c == 'C' {
        Some(4int)
    } else if c == 'd' || c == 'D' {
        Some(5int)
    } else if c == 'e' || c == 'E' {
        Some(6int)
    } else if c == 'f' || c == 'F' {
        Some(7int)
    } else if c == 'g' || c == 'G' {
        Some(8int)
    } else if c == 'h' || c == 'H' {
        Some(9int)
    } else {
        None
    }
}

/// Value of a decimal digit character.
pub open spec fn digit_val(c: char) -> Option<int> {
    if c == '0' {
        Some(0int)
    } else if c == '1' {
        Some(1int)
    } else if c == '2' {
        Some(2int)
    } else if c == '3' {
        Some(3int)
    } else if c == '4' {
        Some(4int)
    } else if c == '5' {
        Some(5int)
    } else if c == '6' {
        Some(6int)
    } else if c == '7' {
        Some(7int)
    } else if c == '8' {
        Some(8int)
    } else if c == '9' {
        Some(9int)
    } else {
        None
    }
}

/// What reading a position from text yields: the single token of `s` must be
/// two or four characters, start with a file letter and carry a rank digit
/// second.
pub open spec fn pos_of_text(s: Seq<char>) -> Option<Position> {
    let a = next_nonspace(s, 0);
    let b = next_space(s, a);
    if a < s.len() && next_nonspace(s, b) == s.len() && (b - a == 2 || b - a == 4)
        && digit_val(s[a + 1]) is Some && letter_col(s[a]) is Some {
        Some(
            Position {
                row: (10 - digit_val(s[a + 1]).unwrap()) as usize,
                col: letter_col(s[a]).unwrap() as usize,
            },
        )
    } else {
        None
    }
}

impl Position {
    /// The position with row and column exchanged.
    pub fn swap(self) -> (r: Position)
        ensures
            r.row == self.col,
            r.col == self.row,
    {
        Position { row: self.col, col: self.row }
    }

    /// Whether the position lies on the playable 8 by 8 board.
    pub fn is_valid_position(self) -> (r: bool)
        ensures
            r == valid_pos(self.row as int, self.col as int),
    {
        self.row >= 2 && self.row <= 9 && self.col >= 2 && self.col <= 9
    }

    /// The square one column to the right, from White's point of view.
    pub fn right(self) -> (r: Position)
        requires
            self.col < usize::MAX,
        ensures
            r.row == self.row,
            r.col == self.col + 1,
    {
        Position { row: self.row, col: self.col + 1 }
    }

    /// The square one column to the left, from White's point of view.
    pub fn left(self) -> (r: Position)
        requires
            self.col >= 1,
        ensures
            r.row == self.row,
            r.col == self.col - 1,
    {
        Position { row: self.row, col: self.col - 1 }
    }

    /// The square one row up, from White's point of view.
    pub fn up(self) -> (r: Position)
        requires
            self.row >= 1,
        ensures
            r.row == self.row - 1,
            r.col == self.col,
    {
        Position { row: self.row - 1, col: self.col }
    }

    /// The square one row down, from White's point of view.
    pub fn down(self) -> (r: Position)
        requires
            self.row < usize::MAX,
        ensures
            r.row == self.row + 1,
            r.col == self.col,
    {
        Position { row: self.row + 1, col: self.col }
    }

    /// The adjacent square one step away in the given direction.
    pub fn next_position(self, dir: &Direction) -> (r: Position)
        requires
            0 <= self.row as int + row_delta(*dir) <= usize::MAX as int,
            0 <= self.col as int + col_delta(*dir) <= usize::MAX as int,
        ensures
            r.row as int == self.row as int + row_delta(*dir),
            r.col as int == self.col as int + col_delta(*dir),
    {
        match dir {
            Direction::Right => self.right(),
            Direction::Left => self.left(),
            Direction::Up => self.up(),
            Direction::Down => self.down(),
            Direction::UpRight => self.up().right(),
            Direction::UpLeft => self.up().left(),
            Direction::DownRight => self.down().right(),
            Direction::DownLeft => self.down().left(),
        }
    }

    /// Renders the position in algebraic notation, such as e4.
    pub fn to_string(self) -> (r: String)
        requires
            self.row <= 10,
        ensures
            r@ == pos_text(self),
    {
        let start: &str = if self.col == 2 {
            "a"
        } else if self.col == 3 {
            "b"
        } else if self.col == 4 {
            "c"
        } else if self.col == 5 {
            "d"
        } else if self.col == 6 {
            "e"
        } else if self.col == 7 {
            "f"
        } else if self.col == 8 {
            "g"
        } else if self.col == 9 {
            "h"
        } else {
            "Not a valid Position!!"
        };
        let end: &str = if self.row == 0 {
            "10"
        } else if self.row == 1 {
            "9"
        } else if self.row == 2 {
            "8"
        } else if self.row == 3 {
            "7"
        } else if self.row == 4 {
            "6"
        } else if self.row == 5 {
            "5"
        } else if self.row == 6 {
            "4"
        } else if self.row == 7 {
            "3"
        } else if self.row == 8 {
            "2"
        } else if self.row == 9 {
            "1"
        } else {
            "0"
        };
        String::from_str(start).concat(end)
    }

    /// Reads a position from text such as "e4"; the text must hold exactly
    /// one token, two or four characters long, led by a file letter and a
    /// rank digit. The rank is not range-checked, as coordinates off the
    /// playable board are representable.
    pub fn from_string<'a>(position: String) -> (r: Result<Position, &'a str>)
        requires
            next_nonspace(position@, 0) < position@.len(),
        ensures
            r matches Ok(p) ==> pos_of_text(position@) == Some(p),
            r is Err ==> pos_of_text(position@) is None,
    {
        let st = position.as_str();
        let n = st.unicode_len();
        let ghost s = position@;

        // Find the start of the first token.
        let mut a: usize = 0;
        while a < n && is_space(st.get_char(a))
            invariant
                st@ == s,
                n == s.len(),
                0 <= a <= n,
                next_nonspace(s, 0) == next_nonspace(s, a as int),
            decreases n - a,
        {
            a = a + 1;
        }
        assert(next_nonspace(s, 0) == a as int);
        if a == n {
            // Unreachable: the text holds a non-blank character.
            proof {
                assert(false);
            }
            return Err("Not a valid position");
        }

        // Find the end of the first token.
        let mut b: usize = a;
        while b < n && !is_space(st.get_char(b))
            invariant
                st@ == s,
                n == s.len(),
                a <= b <= n,
                next_space(s, a as int) == next_space(s, b as int),
            decreases n - b,
        {
            b = b + 1;
        }
        assert(next_space(s, a as int) == b as int);

        // Anything but blanks after the token means several tokens.
        let mut k: usize = b;
        while k < n && is_space(st.get_char(k))
            invariant
                st@ == s,
                n == s.len(),
                b <= k <= n,
                next_nonspace(s, b as int) == next_nonspace(s, k as int),
            decreases n - k,
        {
            k = k + 1;
        }
        assert(next_nonspace(s, b as int) == k as int);
        if k < n {
            return Err("Not a valid position -");
        }

        let tok_len = b - a;
        if !(tok_len == 2 || tok_len == 4) {
            return Err("Not a valid position");
        }

        let digit = st.get_char(a + 1);
        let row: usize;
        if digit == '0' {
            row = 10;
        } else if digit == '1' {
            row = 9;
        } else if digit == '2' {
            row = 8;
        } else if digit == '3' {
            row = 7;
        } else if digit == '4' {
            row = 6;
        } else if digit == '5' {
            row = 5;
        } else if digit == '6' {
            row = 4;
        } else if digit == '7' {
            row = 3;
        } else if digit == '8' {
            row = 2;
        } else if digit == '9' {
            row = 1;
        } else {
            return Err("cannot parse position");
        }

        let letter = st.get_char(a);
        let col: usize;
        if letter == 'a' || letter == 'A' {
            col = 2;
        } else if letter == 'b' || letter == 'B' {
            col = 3;
        } else if letter == 'c' || letter == 'C' {
            col = 4;
        } else if letter == 'd' || letter == 'D' {
            col = 5;
        } else if letter == 'e' || letter == 'E' {
            col = 6;
        } else if letter == 'f' || letter == 'F' {
            col = 7;
        } else if letter == 'g' || letter == 'G' {
            col = 8;
        } else if letter == 'h' || letter == 'H' {
            col = 9;
        } else {
            return Err("Index out of bounds");
        }

        Ok(Position { row, col })
    }
}

/// Whether a character counts as blank when reading a position from text.
pub fn is_space(c: char) -> (r: bool)
    ensures
        r == is_space_char(c),
{
    c == ' ' || c == '\t' || c == '\n' || c == '\r'
}

/// Builds an ordinary move.
pub fn standard(before: Position, after: Position, piece_moved: Piece, piece_captured: Option<
    Piece,
>) -> (r: Move)
    ensures
        r.move_type == MoveType::Standard(StandardMove { before, after, piece_moved }),
        r.piece_captured == piece_captured,
{
    let move_type: MoveType = MoveType::Standard(StandardMove { before, after, piece_moved });
    Move { move_type, piece_captured }
}

/// Builds a castling move; castling never captures.
pub fn castle(is_kingside: bool, color: Color) -> (r: Move)
    ensures
        r.move_type == MoveType::Castle(CastleMove { is_kingside, color }),
        r.piece_captured is None,
{
    let move_type: MoveType = MoveType::Castle(CastleMove { is_kingside, color });
    Move { move_type, piece_captured: None }
}

/// Builds a promotion move. A pawn never promotes to a king.
pub fn promotion(before: Position, after: Position, promote_to: Piece, piece_captured: Option<
    Piece,
>) -> (r: Move)
    requires
        promote_to.piece_type != PieceType::King,
    ensures
        r.move_type == MoveType::Promotion(PromotionMove { before, after, promote_to }),
        r.piece_captured == piece_captured,
{
    let move_type: MoveType = MoveType::Promotion(PromotionMove { before, after, promote_to });
    Move { move_type, piece_captured }
}

/// Builds an en-passant capture; `en_passant_pos` is the square of the
/// captured pawn, not the destination.
pub fn en_passant(before: Position, after: Position, en_passant_pos: Position, piece_captured:
    Option<Piece>) -> (r: Move)
    ensures
        r.move_type == MoveType::EnPassant(EnPassantMove { before, after, en_passant_pos }),
        r.piece_captured == piece_captured,
{
    let move_type: MoveType = MoveType::EnPassant(EnPassantMove { before, after, en_passant_pos });
    Move { move_type, piece_captured }
}

} // verus!
