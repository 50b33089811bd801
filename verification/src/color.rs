use vstd::prelude::*;

verus! {

/// Side of a piece, a square, or a player.
#[derive(Clone, Copy, PartialEq, Eq, Structural, Debug)]
pub enum Color {
    White,
    Black,
}

/// The other side: White for Black and Black for White.
pub open spec fn other(c: Color) -> Color {
    match c {
        Color::White => Color::Black,
        Color::Black => Color::White,
    }
}

impl Color {
    /// Opposite of White is Black and vice versa.
    pub fn opposite(&self) -> (r: Color)
        ensures
            r == other(*self),
    {
        match self {
            Color::White => Color::Black,
            Color::Black => Color::White,
        }
    }

    /// Display name of the side; Black renders as blue on a terminal.
    pub fn color_to_string(self) -> (r: String)
        ensures
            self == Color::White ==> r@ == "white"@,
            self == Color::Black ==> r@ == "blue"@,
    {
        match self {
            Color::White => String::from_str("white"),
            Color::Black => String::from_str("blue"),
        }
    }
}

} // verus!
