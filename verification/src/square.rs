use vstd::prelude::*;
use crate::color::Color;
use crate::piece::Piece;

verus! {

/// A cell of the board: its fixed checkerboard color and the piece standing
/// on it, if any.
#[derive(Clone, Copy, PartialEq, Eq, Structural, Debug)]
pub struct Square {
    pub piece: Option<Piece>,
    pub color: Color,
}

impl Square {
    /// Whether some piece stands on this square.
    pub fn is_occupied(&self) -> (r: bool)
        ensures
            r == (self.piece is Some),
    {
        match self.piece {
            Some(_) => true,
            None => false,
        }
    }
}

} // verus!
