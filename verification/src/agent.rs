use vstd::prelude::*;
use crate::alpha_beta::{chosen, lemma_search_shape, AlphaBetaAgent};
use crate::deck::{CardId, Deck};
use crate::game_state::GameState;
use crate::human::Human;
use crate::random_agent::{drawn_from, RandomAgent};
use crate::tile_map::{Move, TileMap};

verus! {

/// A move-selection strategy: one of the three kinds.
#[derive(Debug, Clone, Copy)]
pub enum Agent {
    Human(Human),
    Random(RandomAgent),
    AlphaBeta(AlphaBetaAgent),
}

impl Agent {
    /// Whether the strategy can be asked for a move on this state: a human
    /// moves through the user interface and is never asked, and the search
    /// needs room for the plies it counts.
    pub open spec fn can_choose(&self, game_state: &GameState, deck: &Deck) -> bool {
        &&& deck.wf()
        &&& match self {
            Agent::Human(_) => false,
            Agent::Random(_) => true,
            Agent::AlphaBeta(agent) => game_state.current_player_idx < 2 && game_state.turn
                + agent.max_depth <= u16::MAX,
        }
    }

    /// Asks the strategy for a card and a move for the side to move.
    pub fn generate_move(&self, board: &TileMap, game_state: &GameState, deck: &Deck) -> (r: (
        Option<CardId>,
        Option<Move>,
        i32,
    ))
        requires
            self.can_choose(game_state, deck),
        ensures
            r.0 is Some <==> r.1 is Some,
            self matches Agent::Random(_) ==> r.2 == 0 && (drawn_from(
                r,
                board@,
                game_state.curr_color,
                deck@,
                0,
            ) || drawn_from(r, board@, game_state.curr_color, deck@, 1)),
            self matches Agent::AlphaBeta(agent) ==> (r.0, r.1, r.2 as int) == chosen(
                agent.max_depth as nat,
                board@,
                game_state.curr_color,
                deck@,
            ),
    {
        match self {
            Agent::Human(_) => (None, None, 0),
            Agent::Random(agent) => agent.generate_move(board, game_state, deck),
            Agent::AlphaBeta(agent) => {
                proof {
                    lemma_search_shape(
                        agent.max_depth as nat,
                        i32::MIN as int,
                        i32::MAX as int,
                        board@,
                        game_state.curr_color,
                        deck@,
                        None,
                    );
                }
                agent.generate_move(board, game_state, deck)
            },
        }
    }
}

} // verus!
