use vstd::prelude::*;
use crate::coordinates::Coordinates;
use crate::player::PlayerColor;
use crate::tile_map::{grid_at, Grid, TileMap};

verus! {

/// What a click on a square of the board leads to.
#[derive(Debug, Clone, Copy, PartialEq, Eq, Structural)]
pub enum TileAction {
    /// No card is selected: the player is asked to select one first.
    AskForCard,
    /// The selected piece moves to the square.
    MovePiece(Coordinates),
    /// The piece on the square becomes the selected piece.
    SelectPiece(Coordinates),
    /// The click changes nothing.
    Nothing,
}

/// What a click on `clicked` leads to, for the side `color` on the board
/// `g`: without a selected card, a request for one; on one of the allowed
/// destinations of the selected piece, the move; on a piece of the side
/// that is not selected already, its selection; and nothing otherwise.
pub open spec fn tile_action(
    g: Grid,
    color: PlayerColor,
    card_selected: bool,
    selected: Option<Coordinates>,
    allowed: Seq<Coordinates>,
    clicked: Coordinates,
) -> TileAction {
    if !card_selected {
        TileAction::AskForCard
    } else if allowed.contains(clicked) {
        TileAction::MovePiece(clicked)
    } else if !clicked.on_board() || selected == Some(clicked) {
        TileAction::Nothing
    } else {
        match grid_at(g, clicked) {
            Some(piece) => if piece.color == color {
                TileAction::SelectPiece(clicked)
            } else {
                TileAction::Nothing
            },
            None => TileAction::Nothing,
        }
    }
}

/// Decides what a click on a square of the board leads to.
pub fn process_selected_tile(
    board: &TileMap,
    curr_color: PlayerColor,
    card_selected: bool,
    selected: Option<Coordinates>,
    allowed_moves: &Vec<Coordinates>,
    clicked: Coordinates,
) -> (action: TileAction)
    ensures
        action == tile_action(
            board@,
            curr_color,
            card_selected,
            selected,
            allowed_moves@,
            clicked,
        ),
{
    if !card_selected {
        return TileAction::AskForCard;
    }
    let mut i: usize = 0;
    while i < allowed_moves.len()
        invariant
            card_selected,
            i <= allowed_moves@.len(),
            forall|k: int| 0 <= k < i ==> allowed_moves@[k] != clicked,
        decreases allowed_moves@.len() - i,
    {
        if allowed_moves[i] == clicked {
            assert(allowed_moves@[i as int] == clicked);
            return TileAction::MovePiece(clicked);
        }
        i += 1;
    }
    if !clicked.in_board() {
        return TileAction::Nothing;
    }
    if let Some(current) = selected {
        if current == clicked {
            return TileAction::Nothing;
        }
    }
    match board.piece_at(clicked) {
        Some(piece) => {
            if piece.color == curr_color {
                TileAction::SelectPiece(clicked)
            } else {
                TileAction::Nothing
            }
        },
        None => TileAction::Nothing,
    }
}

} // verus!
