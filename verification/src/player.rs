use vstd::prelude::*;

verus! {

/// The two sides of a match. Red moves first.
#[derive(Debug, Clone, Copy, PartialEq, Eq, Structural)]
pub enum PlayerColor {
    Red,
    Blue,
}

impl PlayerColor {
    /// The opposing side, as a mathematical function.
    pub open spec fn opponent(self) -> PlayerColor {
        match self {
            PlayerColor::Red => PlayerColor::Blue,
            PlayerColor::Blue => PlayerColor::Red,
        }
    }

    /// Replaces this side by the opposing one.
    #[inline]
    pub fn switch(&mut self)
        ensures
            *final(self) == old(self).opponent(),
    {
        *self = match self {
            PlayerColor::Red => PlayerColor::Blue,
            PlayerColor::Blue => PlayerColor::Red,
        };
    }

    /// The opposing side.
    #[inline]
    pub fn enemy(&self) -> (r: PlayerColor)
        ensures
            r == self.opponent(),
    {
        match self {
            PlayerColor::Red => PlayerColor::Blue,
            PlayerColor::Blue => PlayerColor::Red,
        }
    }
}

/// How a side chooses its moves.
#[derive(Debug, Clone, Copy, PartialEq, Eq, Structural)]
pub enum PlayerType {
    Human,
    Random,
    AlphaBeta,
}

/// The kinds of player picked for the two sides before a match starts.
#[derive(Debug, Clone, Copy)]
pub struct SelectedPlayers {
    pub red_player: PlayerType,
    pub blue_player: PlayerType,
}

impl Default for SelectedPlayers {
    fn default() -> (r: Self)
        ensures
            r.red_player == PlayerType::Human,
            r.blue_player == PlayerType::Human,
    {
        Self { red_player: PlayerType::Human, blue_player: PlayerType::Human }
    }
}

} // verus!
