use vstd::prelude::*;
use crate::deck::{CardId, Deck, DeckModel};
use crate::evaluation::{evaluation, lemma_evaluation_bound, score_bound, Evaluation};
use crate::game_state::{lemma_turn_symmetry, GameState};
use crate::minimax::{lemma_chosen_is_minimax_choice, minimax_choice};
use crate::player::PlayerColor;
use crate::tile::Tile;
use crate::tile_map::{
    card_moves, grid_after_move, grid_at, legal_move, lemma_card_moves_legal,
    lemma_legal_move_allowed, lemma_same_view_same_map, move_allowed, move_outcome, Grid, Move,
    MoveResult, TileMap,
};

verus! {

/// A move with the score that the search gave it.
#[derive(Debug, Clone, Copy)]
pub struct MoveEvaluation {
    pub mov: Move,
    pub score: i32,
}

/// The strategy that searches the game tree to a fixed depth, with
/// alpha-beta pruning. Red maximises the score and Blue minimises it.
#[derive(Debug, Clone, Copy)]
pub struct AlphaBetaAgent {
    pub max_depth: u8,
}

/// What a search returns: the move it chose, the card that gives the move,
/// and the score. Move and card are `None` at a node that has no ply to play.
#[derive(Debug, Clone, Copy, PartialEq, Eq)]
pub struct CalculationResult {
    pub best_move: Option<Move>,
    pub best_card: Option<CardId>,
    pub best_score: i32,
}

/// The mathematical model of a search result, with an unbounded score.
pub struct Outcome {
    pub best_move: Option<Move>,
    pub best_card: Option<CardId>,
    pub best_score: int,
}

impl View for CalculationResult {
    type V = Outcome;

    open spec fn view(&self) -> Outcome {
        Outcome {
            best_move: self.best_move,
            best_card: self.best_card,
            best_score: self.best_score as int,
        }
    }
}

/// A move that the side to move can make, with the slot and the identifier
/// of the card that gives it.
#[derive(Debug, Clone, Copy)]
pub struct Candidate {
    pub slot: usize,
    pub card: CardId,
    pub mov: Move,
}

/// The score that any score of a real move improves on: the least score
/// for Red, who maximises, and the greatest for Blue.
pub open spec fn sentinel(color: PlayerColor) -> int {
    match color {
        PlayerColor::Red => i32::MIN as int,
        PlayerColor::Blue => i32::MAX as int,
    }
}

/// The candidates that the card in `slot` gives the side `color`.
pub open spec fn slot_candidates(g: Grid, color: PlayerColor, deck: DeckModel, slot: int) -> Seq<
    Candidate,
> {
    card_moves(g, color, deck.card_in(slot)).map_values(
        |m: Move| Candidate { slot: slot as usize, card: deck.slots[slot], mov: m },
    )
}

/// The candidates of a node in the order in which the search tries them:
/// the moves of the side's first card, then those of its second card.
pub open spec fn candidates(g: Grid, color: PlayerColor, deck: DeckModel) -> Seq<Candidate> {
    slot_candidates(g, color, deck, DeckModel::first_slot(color)) + slot_candidates(
        g,
        color,
        deck,
        DeckModel::first_slot(color) + 1,
    )
}

/// The result of a node that plays no ply: the evaluation of the position.
pub open spec fn leaf(g: Grid, color: PlayerColor, last: Option<MoveResult>) -> Outcome {
    Outcome { best_move: None, best_card: None, best_score: evaluation(g, color, last) }
}

/// The best result of a node before any candidate was tried.
pub open spec fn nothing_yet(color: PlayerColor) -> Outcome {
    Outcome { best_move: None, best_card: None, best_score: sentinel(color) }
}

/// The board, the side to move and the pool after a candidate was played.
pub open spec fn child_grid(g: Grid, c: Candidate) -> Grid {
    grid_after_move(g, c.mov.from, c.mov.to)
}

/// What the move of a candidate does at its destination.
pub open spec fn child_result(g: Grid, c: Candidate) -> Option<MoveResult> {
    Some(move_outcome(g, c.mov.from, c.mov.to))
}

/// Whether a node plays no ply: no ply is left, the move that led to it
/// has won, or the side to move has no candidate.
pub open spec fn is_leaf(
    fuel: nat,
    g: Grid,
    color: PlayerColor,
    deck: DeckModel,
    last: Option<MoveResult>,
) -> bool {
    fuel == 0 || last == Some(MoveResult::Win) || candidates(g, color, deck).len() == 0
}

/// The result of the search at a node: `fuel` plies are left to look ahead,
/// `color` is to move on `g` with the pool `deck`, and `last` is what the
/// move that led here did. A node with no ply left, one reached by a winning
/// move and one without candidates give the evaluation of their position.
pub open spec fn search(
    fuel: nat,
    alpha: int,
    beta: int,
    g: Grid,
    color: PlayerColor,
    deck: DeckModel,
    last: Option<MoveResult>,
) -> Outcome
    decreases fuel, candidates(g, color, deck).len() + 1,
{
    if is_leaf(fuel, g, color, deck, last) {
        leaf(g, color, last)
    } else {
        scan(fuel, alpha, beta, g, color, deck, 0, nothing_yet(color))
    }
}

/// The best result after a candidate with the given score was tried.
pub open spec fn improved(color: PlayerColor, best: Outcome, c: Candidate, score: int) -> Outcome {
    let better = match color {
        PlayerColor::Red => score > best.best_score,
        PlayerColor::Blue => score < best.best_score,
    };
    if better {
        Outcome { best_move: Some(c.mov), best_card: Some(c.card), best_score: score }
    } else {
        best
    }
}

/// The lower bound after Red tried a candidate with the given score.
pub open spec fn raised(color: PlayerColor, alpha: int, score: int) -> int {
    if color == PlayerColor::Red && score > alpha {
        score
    } else {
        alpha
    }
}

/// The upper bound after Blue tried a candidate with the given score.
pub open spec fn lowered(color: PlayerColor, beta: int, score: int) -> int {
    if color == PlayerColor::Blue && score < beta {
        score
    } else {
        beta
    }
}

/// The result of a node from its `i`-th candidate on, when `best` is the
/// best result among the candidates before it and `alpha` and `beta` are
/// the bounds they left. Each candidate is searched one ply down with the
/// bounds as they stand. The first candidate with a given score keeps its
/// place; the node stops as soon as the bounds meet.
pub open spec fn scan(
    fuel: nat,
    alpha: int,
    beta: int,
    g: Grid,
    color: PlayerColor,
    deck: DeckModel,
    i: int,
    best: Outcome,
) -> Outcome
    decreases fuel, candidates(g, color, deck).len() - i,
{
    let all = candidates(g, color, deck);
    if fuel == 0 || i < 0 || i >= all.len() {
        best
    } else {
        let c = all[i];
        let score = search(
            (fuel - 1) as nat,
            alpha,
            beta,
            child_grid(g, c),
            color.opponent(),
            deck.rotated(c.slot as int),
            child_result(g, c),
        ).best_score;
        let best_now = improved(color, best, c, score);
        let alpha_now = raised(color, alpha, score);
        let beta_now = lowered(color, beta, score);
        if alpha_now >= beta_now {
            best_now
        } else {
            scan(fuel, alpha_now, beta_now, g, color, deck, i + 1, best_now)
        }
    }
}

/// Every candidate is a legal move of the side to move, given by the card
/// in the candidate's slot, which is one of the side's two slots.
pub proof fn lemma_candidates_legal(g: Grid, color: PlayerColor, deck: DeckModel, i: int)
    requires
        0 <= i < candidates(g, color, deck).len(),
    ensures
        ({
            let c = candidates(g, color, deck)[i];
            &&& DeckModel::first_slot(color) <= c.slot <= DeckModel::first_slot(color) + 1
            &&& c.card == deck.slots[c.slot as int]
            &&& legal_move(g, color, deck.card_in(c.slot as int), c.mov)
            &&& move_allowed(g, c.mov.from, c.mov.to)
            &&& grid_at(g, c.mov.from)->Some_0.color == color
        }),
{
    let first = DeckModel::first_slot(color);
    let a = slot_candidates(g, color, deck, first);
    let c = candidates(g, color, deck)[i];
    let slot = if i < a.len() {
        first
    } else {
        first + 1
    };
    let j = if i < a.len() {
        i
    } else {
        i - a.len()
    };
    let card = deck.card_in(slot);
    assert(c == slot_candidates(g, color, deck, slot)[j]);
    assert(c.mov == card_moves(g, color, card)[j]);
    lemma_card_moves_legal(g, color, card, 25);
    lemma_legal_move_allowed(g, color, card, c.mov);
}

/// Whether a result names a candidate of the node, with its card, and
/// carries a score within the bound of the evaluation.
pub open spec fn settled(best: Outcome, g: Grid, color: PlayerColor, deck: DeckModel) -> bool {
    &&& -score_bound() <= best.best_score <= score_bound()
    &&& exists|j: int|
        0 <= j < candidates(g, color, deck).len() && best.best_move == Some(
            (#[trigger] candidates(g, color, deck)[j]).mov,
        ) && best.best_card == Some(candidates(g, color, deck)[j].card)
}

/// The shape of a search result: a leaf gives the evaluation of its
/// position and neither move nor card; every other node gives one of its
/// candidates with that candidate's card. Every score lies within the
/// bound of the evaluation.
pub proof fn lemma_search_shape(
    fuel: nat,
    alpha: int,
    beta: int,
    g: Grid,
    color: PlayerColor,
    deck: DeckModel,
    last: Option<MoveResult>,
)
    ensures
        -score_bound() <= search(fuel, alpha, beta, g, color, deck, last).best_score
            <= score_bound(),
        is_leaf(fuel, g, color, deck, last) ==> search(fuel, alpha, beta, g, color, deck, last)
            == leaf(g, color, last),
        !is_leaf(fuel, g, color, deck, last) ==> settled(
            search(fuel, alpha, beta, g, color, deck, last),
            g,
            color,
            deck,
        ),
    decreases fuel, candidates(g, color, deck).len() + 1,
{
    lemma_evaluation_bound(g, color, last);
    if !is_leaf(fuel, g, color, deck, last) {
        lemma_scan_shape(fuel, alpha, beta, g, color, deck, 0, nothing_yet(color));
    }
}

/// The shape of the result of a node from its `i`-th candidate on.
pub proof fn lemma_scan_shape(
    fuel: nat,
    alpha: int,
    beta: int,
    g: Grid,
    color: PlayerColor,
    deck: DeckModel,
    i: int,
    best: Outcome,
)
    requires
        fuel > 0,
        0 <= i <= candidates(g, color, deck).len(),
        (i == 0 && best == nothing_yet(color)) || settled(best, g, color, deck),
        i < candidates(g, color, deck).len() || settled(best, g, color, deck),
    ensures
        settled(scan(fuel, alpha, beta, g, color, deck, i, best), g, color, deck),
    decreases fuel, candidates(g, color, deck).len() - i,
{
    let all = candidates(g, color, deck);
    if i < all.len() {
        let c = all[i];
        lemma_search_shape(
            (fuel - 1) as nat,
            alpha,
            beta,
            child_grid(g, c),
            color.opponent(),
            deck.rotated(c.slot as int),
            child_result(g, c),
        );
        let score = search(
            (fuel - 1) as nat,
            alpha,
            beta,
            child_grid(g, c),
            color.opponent(),
            deck.rotated(c.slot as int),
            child_result(g, c),
        ).best_score;
        let best_now = improved(color, best, c, score);
        let alpha_now = raised(color, alpha, score);
        let beta_now = lowered(color, beta, score);
        assert(settled(best_now, g, color, deck));
        if alpha_now < beta_now {
            lemma_scan_shape(fuel, alpha_now, beta_now, g, color, deck, i + 1, best_now);
        }
    }
}

/// The choice of the search agent with `depth` plies to look ahead: the
/// card, the move and the score of the search from the root, with the
/// bounds wide open and no move before it.
pub open spec fn chosen(depth: nat, g: Grid, color: PlayerColor, deck: DeckModel) -> (
    Option<CardId>,
    Option<Move>,
    int,
) {
    let found = search(depth, i32::MIN as int, i32::MAX as int, g, color, deck, None);
    (found.best_card, found.best_move, found.best_score)
}

/// Search determinism: two results that are each the choice of the search
/// agent for the same depth, board, side and pool are the same.
pub proof fn lemma_search_deterministic(
    depth: nat,
    g: Grid,
    color: PlayerColor,
    deck: DeckModel,
    first: (Option<CardId>, Option<Move>, i32),
    second: (Option<CardId>, Option<Move>, i32),
)
    requires
        (first.0, first.1, first.2 as int) == chosen(depth, g, color, deck),
        (second.0, second.1, second.2 as int) == chosen(depth, g, color, deck),
    ensures
        first == second,
{
}

impl AlphaBetaAgent {
    pub fn new(max_depth: u8) -> (r: Self)
        ensures
            r.max_depth == max_depth,
    {
        Self { max_depth }
    }

    /// The candidates of the side to move, in the order in which the search
    /// tries them.
    pub fn candidates(board: &TileMap, game_state: &GameState, deck: &Deck) -> (r: Vec<Candidate>)
        requires
            deck.wf(),
        ensures
            r@ == candidates(board@, game_state.curr_color, deck@),
    {
        let color = game_state.curr_color;
        let cards = deck.get_player_cards(game_state);
        let first: usize = match color {
            PlayerColor::Blue => 0,
            PlayerColor::Red => 3,
        };
        let mut r: Vec<Candidate> = Vec::new();
        let mut k: usize = 0;
        while k < 2
            invariant
                k <= 2,
                first == DeckModel::first_slot(color),
                cards@.len() == 2,
                forall|n: int|
                    0 <= n < 2 ==> (#[trigger] cards@[n]) == (
                        deck@.slots[first + n],
                        deck@.card_in(first + n),
                    ),
                k == 0 ==> r@ == Seq::<Candidate>::empty(),
                k == 1 ==> r@ == slot_candidates(board@, color, deck@, first as int),
                k == 2 ==> r@ == candidates(board@, color, deck@),
            decreases 2 - k,
        {
            let (id, card) = cards[k];
            let slot = first + k;
            let moves = board.generate_possible_moves_for_card(&color, &card);
            let ghost before = r@;
            let ghost wanted = slot_candidates(board@, color, deck@, slot as int);
            let mut j: usize = 0;
            while j < moves.len()
                invariant
                    j <= moves@.len(),
                    moves@ == card_moves(board@, color, deck@.card_in(slot as int)),
                    wanted == slot_candidates(board@, color, deck@, slot as int),
                    id == deck@.slots[slot as int],
                    r@ == before + wanted.take(j as int),
                decreases moves@.len() - j,
            {
                r.push(Candidate { slot, card: id, mov: moves[j] });
                j += 1;
                assert(r@ =~= before + wanted.take(j as int));
            }
            assert(wanted.take(j as int) =~= wanted);
            assert(Seq::<Candidate>::empty() + wanted =~= wanted);
            k += 1;
        }
        r
    }

    /// Chooses a card and a move for the side to move, by a search of
    /// `max_depth` plies on copies of the board, the turn state and the pool.
    pub fn generate_move(&self, board: &TileMap, game_state: &GameState, deck: &Deck) -> (r: (
        Option<CardId>,
        Option<Move>,
        i32,
    ))
        requires
            deck.wf(),
            game_state.current_player_idx < 2,
            game_state.turn + self.max_depth <= u16::MAX,
        ensures
            (r.0, r.1, r.2 as int) == chosen(
                self.max_depth as nat,
                board@,
                game_state.curr_color,
                deck@,
            ),
            (r.0, r.1, r.2 as int) == minimax_choice(
                self.max_depth as nat,
                board@,
                game_state.curr_color,
                deck@,
            ),
    {
        proof {
            lemma_chosen_is_minimax_choice(
                self.max_depth as nat,
                board@,
                game_state.curr_color,
                deck@,
            );
        }
        let mut board_copy = *board;
        let mut state_copy = *game_state;
        let mut deck_copy = deck.clone();
        let result = self.alpha_beta(
            0,
            i32::MIN,
            i32::MAX,
            &mut board_copy,
            &mut state_copy,
            &mut deck_copy,
            None,
        );
        (result.best_card, result.best_move, result.best_score)
    }

    /// Searches the node at `depth`: `game_state` says who is to move on
    /// `board` with the pool `deck`, and `move_result` what the move that
    /// led here did. The three are changed while the search runs and are
    /// as they were when it returns.
    pub fn alpha_beta(
        &self,
        depth: u8,
        alpha: i32,
        beta: i32,
        board: &mut TileMap,
        game_state: &mut GameState,
        deck: &mut Deck,
        move_result: Option<MoveResult>,
    ) -> (r: CalculationResult)
        requires
            depth <= self.max_depth,
            old(deck).wf(),
            old(game_state).current_player_idx < 2,
            old(game_state).turn + (self.max_depth - depth) <= u16::MAX,
        ensures
            r@ == search(
                (self.max_depth - depth) as nat,
                alpha as int,
                beta as int,
                old(board)@,
                old(game_state).curr_color,
                old(deck)@,
                move_result,
            ),
            *final(board) == *old(board),
            *final(game_state) == *old(game_state),
            final(deck)@ == old(deck)@,
        decreases self.max_depth - depth,
    {
        let player_color = game_state.curr_color;
        let ghost fuel = (self.max_depth - depth) as nat;
        let ghost g = board@;
        let ghost pool = deck@;
        let ghost state = *game_state;
        let won = match move_result {
            Some(MoveResult::Win) => true,
            _ => false,
        };
        if depth == self.max_depth || won {
            return CalculationResult {
                best_move: None,
                best_card: None,
                best_score: Evaluation::evaluate(board, &player_color, &move_result),
            };
        }
        let all = Self::candidates(board, game_state, deck);
        if all.len() == 0 {
            return CalculationResult {
                best_move: None,
                best_card: None,
                best_score: Evaluation::evaluate(board, &player_color, &move_result),
            };
        }
        let mut lo = alpha;
        let mut hi = beta;
        let mut best = CalculationResult {
            best_move: None,
            best_card: None,
            best_score: match player_color {
                PlayerColor::Red => i32::MIN,
                PlayerColor::Blue => i32::MAX,
            },
        };
        let ghost wanted = search(
            fuel,
            alpha as int,
            beta as int,
            g,
            player_color,
            pool,
            move_result,
        );
        let mut i: usize = 0;
        while i < all.len()
            invariant
                i <= all@.len(),
                depth < self.max_depth,
                fuel == self.max_depth - depth,
                all@ == candidates(g, player_color, pool),
                *board == *old(board),
                deck@ == pool,
                *game_state == state,
                pool.wf(),
                state.curr_color == player_color,
                state.current_player_idx < 2,
                state.turn + fuel <= u16::MAX,
                g == old(board)@,
                pool == old(deck)@,
                state == *old(game_state),
                wanted == search(
                    fuel,
                    alpha as int,
                    beta as int,
                    g,
                    player_color,
                    pool,
                    move_result,
                ),
                wanted == scan(fuel, lo as int, hi as int, g, player_color, pool, i as int, best@),
            decreases all@.len() - i,
        {
            let c = all[i];
            proof {
                lemma_candidates_legal(g, player_color, pool, i as int);
                lemma_turn_symmetry(state);
            }
            let captured = Tile::new(board.piece_at(c.mov.to));
            let result = board.make_a_move(c.mov.from, c.mov.to);
            game_state.next_turn();
            deck.swap_card_with_neutral(c.slot);
            let child = self.alpha_beta(
                depth + 1,
                lo,
                hi,
                board,
                game_state,
                deck,
                Some(result),
            );
            let score = child.best_score;
            deck.swap_card_with_neutral(c.slot);
            game_state.undo_next_turn();
            board.undo_move(c.mov.to, c.mov.from, &result, captured);
            proof {
                lemma_same_view_same_map(*board, *old(board));
            }
            match player_color {
                PlayerColor::Red => {
                    if score > best.best_score {
                        best = CalculationResult {
                            best_move: Some(c.mov),
                            best_card: Some(c.card),
                            best_score: score,
                        };
                    }
                    if score > lo {
                        lo = score;
                    }
                },
                PlayerColor::Blue => {
                    if score < best.best_score {
                        best = CalculationResult {
                            best_move: Some(c.mov),
                            best_card: Some(c.card),
                            best_score: score,
                        };
                    }
                    if score < hi {
                        hi = score;
                    }
                },
            }
            if lo >= hi {
                return best;
            }
            i += 1;
        }
        best
    }
}

} // verus!
