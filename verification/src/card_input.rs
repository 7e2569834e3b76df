use vstd::prelude::*;
use crate::card_board::CardOwner;
use crate::deck::{CardId, Deck, DeckModel};
use crate::player::PlayerColor;

verus! {

/// What a click beside the board leads to.
#[derive(Debug, Clone, Copy, PartialEq, Eq, Structural)]
pub enum CardAction {
    /// The card belongs to the other side or to nobody: nothing changes.
    Rejected,
    /// The card is selected already and stays so.
    Keep,
    /// The card becomes the selected card, in place of any other.
    Select(CardId),
    /// The click hit no card: the selected card is given up.
    Deselect,
    /// The click hit no card and none was selected.
    Nothing,
}

/// Whether the card with the given identifier lies in one of the two slots
/// of a side.
pub open spec fn belongs_to(deck: DeckModel, id: CardId, color: PlayerColor) -> bool {
    let first = DeckModel::first_slot(color);
    deck.slots[first] == id || deck.slots[first + 1] == id
}

/// What a click leads to that hit the card `clicked`, or no card: a card of
/// another owner than the side to move is rejected, the selected card is
/// kept, another card of the side is selected, and a click on no card
/// gives up the selection.
pub open spec fn card_action(
    deck: DeckModel,
    color: PlayerColor,
    selected: Option<CardId>,
    clicked: Option<CardId>,
) -> CardAction {
    if clicked is Some && deck.slots.contains(clicked->Some_0) {
        if !belongs_to(deck, clicked->Some_0, color) {
            CardAction::Rejected
        } else if selected == clicked {
            CardAction::Keep
        } else {
            CardAction::Select(clicked->Some_0)
        }
    } else if selected is Some {
        CardAction::Deselect
    } else {
        CardAction::Nothing
    }
}

/// Decides what a click beside the board leads to.
pub fn card_selection_handling(
    deck: &Deck,
    curr_color: PlayerColor,
    selected: Option<CardId>,
    clicked: Option<CardId>,
) -> (action: CardAction)
    requires
        deck.wf(),
    ensures
        action == card_action(deck@, curr_color, selected, clicked),
{
    if let Some(id) = clicked {
        if let Some(slot) = deck.slot_of(id) {
            let owner = CardOwner::from_slot(slot);
            if !owner.does_belong_to_player(&curr_color) {
                return CardAction::Rejected;
            }
            if let Some(current) = selected {
                if current == id {
                    return CardAction::Keep;
                }
            }
            return CardAction::Select(id);
        }
    }
    if selected.is_some() {
        CardAction::Deselect
    } else {
        CardAction::Nothing
    }
}

} // verus!
