use vstd::prelude::*;
use crate::player::PlayerColor;

verus! {

/// The two ranks of a piece.
#[derive(Debug, Copy, Clone, Eq, PartialEq, Structural)]
pub enum PieceKind {
    Pawn,
    King,
}

/// A piece on the board: its side and its rank.
#[derive(Debug, Clone, Copy, PartialEq, Eq, Structural)]
pub struct Piece {
    pub color: PlayerColor,
    pub kind: PieceKind,
}

impl Piece {
    pub fn new(kind: PieceKind, color: PlayerColor) -> (r: Self)
        ensures
            r.kind == kind,
            r.color == color,
    {
        Self { kind, color }
    }

    /// The side that this piece plays against.
    #[inline]
    pub fn enemy(&self) -> (r: PlayerColor)
        ensures
            r == self.color.opponent(),
    {
        match self.color {
            PlayerColor::Red => PlayerColor::Blue,
            PlayerColor::Blue => PlayerColor::Red,
        }
    }
}

} // verus!
