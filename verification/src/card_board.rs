use vstd::prelude::*;
use crate::player::PlayerColor;

verus! {

/// Whom a card on the table belongs to.
#[derive(Debug, Clone, Copy, PartialEq, Eq, Structural)]
pub enum CardOwner {
    Blue,
    Red,
    Neutral,
}

impl CardOwner {
    /// The owner of the card that lies in a slot: Blue for the first two
    /// slots, nobody for the third, Red for the last two.
    pub open spec fn of_slot(slot: int) -> CardOwner {
        if slot < 2 {
            CardOwner::Blue
        } else if slot == 2 {
            CardOwner::Neutral
        } else {
            CardOwner::Red
        }
    }

    /// Whether the card belongs to the given side. The neutral card belongs
    /// to neither.
    #[inline]
    pub fn does_belong_to_player(&self, player_color: &PlayerColor) -> (r: bool)
        ensures
            r == match (*self, *player_color) {
                (CardOwner::Blue, PlayerColor::Blue) => true,
                (CardOwner::Red, PlayerColor::Red) => true,
                _ => false,
            },
    {
        match (self, player_color) {
            (CardOwner::Blue, PlayerColor::Blue) => true,
            (CardOwner::Red, PlayerColor::Red) => true,
            _ => false,
        }
    }

    /// The owner of the card that lies in a slot.
    pub fn from_slot(slot: usize) -> (r: CardOwner)
        ensures
            r == CardOwner::of_slot(slot as int),
    {
        if slot < 2 {
            CardOwner::Blue
        } else if slot == 2 {
            CardOwner::Neutral
        } else {
            CardOwner::Red
        }
    }
}

} // verus!
