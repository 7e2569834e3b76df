use vstd::prelude::*;
use rand::Rng;
use crate::deck::{CardId, Deck, DeckModel};
use crate::game_state::GameState;
use crate::player::PlayerColor;
use crate::tile_map::{card_moves, Grid, Move, PossibleMoves, TileMap};

verus! {

/// The strategy that picks one of the side's two cards at random, and then
/// one of the moves that the card gives.
#[derive(Debug, Clone, Copy)]
pub struct RandomAgent;

/// `Rng::gen_range` of `rand`, on the thread's generator and the range from
/// 0 up to `bound`, which must not be empty: a number below `bound`, and
/// which one is not known.
#[verifier::external_body]
pub(crate) fn random_below(bound: usize) -> (r: usize)
    requires
        bound > 0,
    ensures
        r < bound,
{
    rand::thread_rng().gen_range(0..bound)
}

/// What the agent returns when the card and the move were drawn as
/// `card_roll` and `move_roll`: that card and that move, with a score of 0,
/// or nothing if there is no such card or no such move.
pub open spec fn picked(all_moves: Seq<PossibleMoves>, card_roll: int, move_roll: int) -> (
    Option<CardId>,
    Option<Move>,
    i32,
) {
    if 0 <= card_roll < all_moves.len() && 0 <= move_roll < all_moves[card_roll].moves@.len() {
        (Some(all_moves[card_roll].card), Some(all_moves[card_roll].moves@[move_roll]), 0i32)
    } else {
        (None, None, 0i32)
    }
}

/// Whether `r` is a result of the agent that comes from the side's card
/// number `k`: a move that the card gives, with the card's identifier, or
/// no move and no card when the card gives no move.
pub open spec fn drawn_from(
    r: (Option<CardId>, Option<Move>, i32),
    g: Grid,
    color: PlayerColor,
    deck: DeckModel,
    k: int,
) -> bool {
    let slot = DeckModel::first_slot(color) + k;
    let moves = card_moves(g, color, deck.card_in(slot));
    match r.1 {
        Some(mov) => r.0 == Some(deck.slots[slot]) && moves.contains(mov),
        None => r.0 is None && moves.len() == 0,
    }
}

impl RandomAgent {
    /// The card and the move that two draws select among the moves of the
    /// side's cards.
    pub fn pick(all_moves: &Vec<PossibleMoves>, card_roll: usize, move_roll: usize) -> (r: (
        Option<CardId>,
        Option<Move>,
        i32,
    ))
        ensures
            r == picked(all_moves@, card_roll as int, move_roll as int),
    {
        if card_roll < all_moves.len() {
            let moves = &all_moves[card_roll];
            if move_roll < moves.moves.len() {
                return (Some(moves.card), Some(moves.moves[move_roll]), 0);
            }
        }
        (None, None, 0)
    }

    /// Draws one of the two cards of the side to move, and then one of the
    /// moves that the card gives. The result holds no move exactly when the
    /// card that was drawn gives none.
    pub fn generate_move(&self, board: &TileMap, game_state: &GameState, deck: &Deck) -> (r: (
        Option<CardId>,
        Option<Move>,
        i32,
    ))
        requires
            deck.wf(),
        ensures
            r.2 == 0,
            drawn_from(r, board@, game_state.curr_color, deck@, 0) || drawn_from(
                r,
                board@,
                game_state.curr_color,
                deck@,
                1,
            ),
    {
        let all_moves = board.generate_all_possible_moves(game_state, deck);
        let card_idx = random_below(2);
        let size = all_moves[card_idx].moves.len();
        let ghost slot = DeckModel::first_slot(game_state.curr_color) + card_idx;
        let ghost moves = card_moves(board@, game_state.curr_color, deck@.card_in(slot));
        assert(all_moves@[card_idx as int].moves@ == moves);
        if size == 0 {
            let r = (None, None, 0);
            assert(drawn_from(r, board@, game_state.curr_color, deck@, card_idx as int));
            return r;
        }
        let mov_idx = random_below(size);
        let r = Self::pick(&all_moves, card_idx, mov_idx);
        assert(moves[mov_idx as int] == r.1->Some_0);
        assert(drawn_from(r, board@, game_state.curr_color, deck@, card_idx as int));
        r
    }
}

} // verus!
