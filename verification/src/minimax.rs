use vstd::prelude::*;
use crate::alpha_beta::{
    candidates, child_grid, child_result, chosen, improved, is_leaf, lemma_candidates_legal,
    lemma_search_shape, lowered, nothing_yet, raised, scan, search, sentinel, Outcome,
};
use crate::deck::{CardId, DeckModel};
use crate::evaluation::{evaluation, lemma_fair_score_bound, score_bound, sign_of, WIN_SCORE};
use crate::player::PlayerColor;
use crate::tile_map::{
    grid_wf, leaders, lemma_move_keeps_leaders, lemma_move_keeps_wf, Grid, Move, MoveResult,
};

verus! {

/// The better of two scores for a side: the greater for Red, the smaller
/// for Blue.
pub open spec fn better_of(color: PlayerColor, a: int, b: int) -> int {
    match color {
        PlayerColor::Red => if a >= b {
            a
        } else {
            b
        },
        PlayerColor::Blue => if a <= b {
            a
        } else {
            b
        },
    }
}

/// The minimax value of a node, without any pruning: the evaluation of a
/// leaf, and else the best for the side to move of the values of all the
/// positions that its candidates lead to.
pub open spec fn minimax(
    fuel: nat,
    g: Grid,
    color: PlayerColor,
    deck: DeckModel,
    last: Option<MoveResult>,
) -> int
    decreases fuel, candidates(g, color, deck).len() + 1,
{
    if is_leaf(fuel, g, color, deck, last) {
        evaluation(g, color, last)
    } else {
        best_upto(fuel, g, color, deck, candidates(g, color, deck).len() as int)
    }
}

/// The minimax value of the position that the `i`-th candidate leads to.
pub open spec fn child_value(
    fuel: nat,
    g: Grid,
    color: PlayerColor,
    deck: DeckModel,
    i: int,
) -> int
    recommends
        fuel > 0,
        0 <= i < candidates(g, color, deck).len(),
    decreases fuel, 0int,
{
    if fuel == 0 {
        0
    } else {
        let c = candidates(g, color, deck)[i];
        minimax(
            (fuel - 1) as nat,
            child_grid(g, c),
            color.opponent(),
            deck.rotated(c.slot as int),
            child_result(g, c),
        )
    }
}

/// The best for the side to move of the values that its first `n`
/// candidates lead to, and the side's sentinel when `n` is 0.
pub open spec fn best_upto(fuel: nat, g: Grid, color: PlayerColor, deck: DeckModel, n: int) -> int
    decreases fuel, n,
{
    if fuel == 0 || n <= 0 {
        sentinel(color)
    } else {
        better_of(
            color,
            best_upto(fuel, g, color, deck, n - 1),
            child_value(fuel, g, color, deck, n - 1),
        )
    }
}

/// What a score found within the bounds `alpha` and `beta` says of the true
/// value: a score inside the bounds is the value; a score at or below
/// `alpha` is at least the value, and a score at or above `beta` at most.
pub open spec fn agrees(alpha: int, beta: int, found: int, value: int) -> bool {
    &&& found <= alpha ==> value <= found
    &&& found >= beta ==> value >= found
    &&& alpha < found < beta ==> value == found
}

/// What holds of the best score after the first `i` candidates of a node
/// that was entered with the bounds `alpha0` and `beta0`, and of the bounds
/// `alpha` and `beta` that they left.
pub open spec fn in_step(
    color: PlayerColor,
    alpha0: int,
    beta0: int,
    alpha: int,
    beta: int,
    best: int,
    so_far: int,
) -> bool {
    match color {
        PlayerColor::Red => {
            &&& beta == beta0
            &&& alpha == better_of(color, alpha0, best)
            &&& best < beta0
            &&& best <= alpha0 ==> so_far <= best
            &&& best > alpha0 ==> so_far == best
        },
        PlayerColor::Blue => {
            &&& alpha == alpha0
            &&& beta == better_of(color, beta0, best)
            &&& best > alpha0
            &&& best >= beta0 ==> so_far >= best
            &&& best < beta0 ==> so_far == best
        },
    }
}

/// The best value of all candidates is at least as good for the side to
/// move as the best value of the first `n`.
pub proof fn lemma_best_upto_grows(
    fuel: nat,
    g: Grid,
    color: PlayerColor,
    deck: DeckModel,
    n: int,
    m: int,
)
    requires
        fuel > 0,
        0 <= n <= m,
    ensures
        better_of(color, best_upto(fuel, g, color, deck, m), best_upto(fuel, g, color, deck, n))
            == best_upto(fuel, g, color, deck, m),
    decreases m - n,
{
    if n < m {
        lemma_best_upto_grows(fuel, g, color, deck, n, m - 1);
    }
}

/// Alpha-beta soundness: within bounds `alpha < beta`, the score that the
/// pruned search finds agrees with the minimax value of the node.
pub proof fn lemma_search_agrees(
    fuel: nat,
    alpha: int,
    beta: int,
    g: Grid,
    color: PlayerColor,
    deck: DeckModel,
    last: Option<MoveResult>,
)
    requires
        i32::MIN <= alpha < beta <= i32::MAX,
    ensures
        agrees(
            alpha,
            beta,
            search(fuel, alpha, beta, g, color, deck, last).best_score,
            minimax(fuel, g, color, deck, last),
        ),
    decreases fuel, candidates(g, color, deck).len() + 1,
{
    if !is_leaf(fuel, g, color, deck, last) {
        lemma_scan_agrees(fuel, alpha, beta, alpha, beta, g, color, deck, 0, nothing_yet(color));
    }
}

/// Alpha-beta soundness from the `i`-th candidate of a node on.
pub proof fn lemma_scan_agrees(
    fuel: nat,
    alpha0: int,
    beta0: int,
    alpha: int,
    beta: int,
    g: Grid,
    color: PlayerColor,
    deck: DeckModel,
    i: int,
    best: Outcome,
)
    requires
        fuel > 0,
        0 <= i <= candidates(g, color, deck).len(),
        i32::MIN <= alpha0 < beta0 <= i32::MAX,
        i32::MIN <= alpha < beta <= i32::MAX,
        in_step(
            color,
            alpha0,
            beta0,
            alpha,
            beta,
            best.best_score,
            best_upto(fuel, g, color, deck, i),
        ),
    ensures
        agrees(
            alpha0,
            beta0,
            scan(fuel, alpha, beta, g, color, deck, i, best).best_score,
            best_upto(fuel, g, color, deck, candidates(g, color, deck).len() as int),
        ),
    decreases fuel, candidates(g, color, deck).len() - i,
{
    let all = candidates(g, color, deck);
    let total = all.len() as int;
    if i < total {
        let c = all[i];
        let child_fuel = (fuel - 1) as nat;
        lemma_search_agrees(
            child_fuel,
            alpha,
            beta,
            child_grid(g, c),
            color.opponent(),
            deck.rotated(c.slot as int),
            child_result(g, c),
        );
        let score = search(
            child_fuel,
            alpha,
            beta,
            child_grid(g, c),
            color.opponent(),
            deck.rotated(c.slot as int),
            child_result(g, c),
        ).best_score;
        let value = child_value(fuel, g, color, deck, i);
        assert(agrees(alpha, beta, score, value));
        lemma_search_shape(
            child_fuel,
            alpha,
            beta,
            child_grid(g, c),
            color.opponent(),
            deck.rotated(c.slot as int),
            child_result(g, c),
        );
        let best_now = improved(color, best, c, score);
        let alpha_now = raised(color, alpha, score);
        let beta_now = lowered(color, beta, score);
        let so_far = best_upto(fuel, g, color, deck, i);
        let so_far_now = best_upto(fuel, g, color, deck, i + 1);
        assert(so_far_now == better_of(color, so_far, value));
        if alpha_now >= beta_now {
            lemma_best_upto_grows(fuel, g, color, deck, i + 1, total);
        } else {
            lemma_scan_agrees(
                fuel,
                alpha0,
                beta0,
                alpha_now,
                beta_now,
                g,
                color,
                deck,
                i + 1,
                best_now,
            );
        }
    }
}

/// Alpha-beta equivalence: with the bounds wide open, the score of the
/// pruned search is the minimax value of the node, the value that a search
/// of the same depth without pruning finds.
pub proof fn lemma_pruning_keeps_score(
    fuel: nat,
    g: Grid,
    color: PlayerColor,
    deck: DeckModel,
    last: Option<MoveResult>,
)
    ensures
        search(fuel, i32::MIN as int, i32::MAX as int, g, color, deck, last).best_score
            == minimax(fuel, g, color, deck, last),
{
    lemma_search_agrees(fuel, i32::MIN as int, i32::MAX as int, g, color, deck, last);
    lemma_search_shape(fuel, i32::MIN as int, i32::MAX as int, g, color, deck, last);
}

/// Every minimax value lies within the bound of the evaluation.
pub proof fn lemma_minimax_bound(
    fuel: nat,
    g: Grid,
    color: PlayerColor,
    deck: DeckModel,
    last: Option<MoveResult>,
)
    ensures
        -score_bound() <= minimax(fuel, g, color, deck, last) <= score_bound(),
{
    lemma_pruning_keeps_score(fuel, g, color, deck, last);
    lemma_search_shape(fuel, i32::MIN as int, i32::MAX as int, g, color, deck, last);
}

/// Whether the score `a` is strictly better for a side than the score `b`.
pub open spec fn beats(color: PlayerColor, a: int, b: int) -> bool {
    match color {
        PlayerColor::Red => a > b,
        PlayerColor::Blue => a < b,
    }
}

/// Among the first `n` candidates of a node, the first one that leads to
/// the best value for the side to move.
pub open spec fn first_best(fuel: nat, g: Grid, color: PlayerColor, deck: DeckModel, n: int) -> int
    decreases n,
{
    if n <= 1 {
        0
    } else if beats(
        color,
        child_value(fuel, g, color, deck, n - 1),
        best_upto(fuel, g, color, deck, n - 1),
    ) {
        n - 1
    } else {
        first_best(fuel, g, color, deck, n - 1)
    }
}

/// The first best candidate leads to the best value, every candidate before
/// it to a strictly worse one, and no candidate to a better one.
pub proof fn lemma_first_best(fuel: nat, g: Grid, color: PlayerColor, deck: DeckModel, n: int)
    requires
        fuel > 0,
        1 <= n <= candidates(g, color, deck).len(),
    ensures
        0 <= first_best(fuel, g, color, deck, n) < n,
        child_value(fuel, g, color, deck, first_best(fuel, g, color, deck, n)) == best_upto(
            fuel,
            g,
            color,
            deck,
            n,
        ),
        -score_bound() <= best_upto(fuel, g, color, deck, n) <= score_bound(),
        forall|k: int|
            0 <= k < first_best(fuel, g, color, deck, n) ==> beats(
                color,
                best_upto(fuel, g, color, deck, n),
                #[trigger] child_value(fuel, g, color, deck, k),
            ),
        forall|k: int|
            0 <= k < n ==> !beats(
                color,
                #[trigger] child_value(fuel, g, color, deck, k),
                best_upto(fuel, g, color, deck, n),
            ),
    decreases n,
{
    let c = candidates(g, color, deck)[n - 1];
    lemma_minimax_bound(
        (fuel - 1) as nat,
        child_grid(g, c),
        color.opponent(),
        deck.rotated(c.slot as int),
        child_result(g, c),
    );
    let value = child_value(fuel, g, color, deck, n - 1);
    let before = best_upto(fuel, g, color, deck, n - 1);
    assert(-score_bound() <= value <= score_bound());
    assert(best_upto(fuel, g, color, deck, n) == better_of(color, before, value));
    if n > 1 {
        lemma_first_best(fuel, g, color, deck, n - 1);
    } else {
        assert(before == sentinel(color));
    }
}

/// What holds of the best result after the first `i` candidates of a node
/// that was entered with the bounds wide open, and of the bounds that they
/// left: nothing is found before the first candidate, and after it the
/// best result is the first best candidate with its value, which is also
/// the bound of the side to move.
pub open spec fn root_step(
    fuel: nat,
    g: Grid,
    color: PlayerColor,
    deck: DeckModel,
    i: int,
    alpha: int,
    beta: int,
    best: Outcome,
) -> bool {
    let own_bound = if i == 0 {
        sentinel(color)
    } else {
        best.best_score
    };
    &&& match color {
        PlayerColor::Red => alpha == own_bound && beta == i32::MAX,
        PlayerColor::Blue => alpha == i32::MIN && beta == own_bound,
    }
    &&& i == 0 ==> best == nothing_yet(color)
    &&& i > 0 ==> best == Outcome {
        best_move: Some(candidates(g, color, deck)[first_best(fuel, g, color, deck, i)].mov),
        best_card: Some(candidates(g, color, deck)[first_best(fuel, g, color, deck, i)].card),
        best_score: best_upto(fuel, g, color, deck, i),
    }
}

/// The result of a node entered with the bounds wide open, from its `i`-th
/// candidate on: the first best of all its candidates, with its value.
pub proof fn lemma_root_scan(
    fuel: nat,
    alpha: int,
    beta: int,
    g: Grid,
    color: PlayerColor,
    deck: DeckModel,
    i: int,
    best: Outcome,
)
    requires
        fuel > 0,
        candidates(g, color, deck).len() > 0,
        0 <= i <= candidates(g, color, deck).len(),
        root_step(fuel, g, color, deck, i, alpha, beta, best),
    ensures
        root_step(
            fuel,
            g,
            color,
            deck,
            candidates(g, color, deck).len() as int,
            raised(color, alpha, scan(fuel, alpha, beta, g, color, deck, i, best).best_score),
            lowered(color, beta, scan(fuel, alpha, beta, g, color, deck, i, best).best_score),
            scan(fuel, alpha, beta, g, color, deck, i, best),
        ),
    decreases candidates(g, color, deck).len() - i,
{
    let all = candidates(g, color, deck);
    let total = all.len() as int;
    if i > 0 {
        lemma_first_best(fuel, g, color, deck, i);
    }
    if i < total {
        let c = all[i];
        let child_fuel = (fuel - 1) as nat;
        lemma_search_agrees(
            child_fuel,
            alpha,
            beta,
            child_grid(g, c),
            color.opponent(),
            deck.rotated(c.slot as int),
            child_result(g, c),
        );
        lemma_search_shape(
            child_fuel,
            alpha,
            beta,
            child_grid(g, c),
            color.opponent(),
            deck.rotated(c.slot as int),
            child_result(g, c),
        );
        lemma_first_best(fuel, g, color, deck, i + 1);
        let score = search(
            child_fuel,
            alpha,
            beta,
            child_grid(g, c),
            color.opponent(),
            deck.rotated(c.slot as int),
            child_result(g, c),
        ).best_score;
        let best_now = improved(color, best, c, score);
        let alpha_now = raised(color, alpha, score);
        let beta_now = lowered(color, beta, score);
        assert(root_step(fuel, g, color, deck, i + 1, alpha_now, beta_now, best_now));
        lemma_root_scan(fuel, alpha_now, beta_now, g, color, deck, i + 1, best_now);
    }
}

/// The choice of the search is a minimax choice: at a node that is no leaf
/// and is entered with the bounds wide open, the search returns the first
/// of its candidates that leads to the minimax value of the node, with the
/// card that gives it and with that value.
pub proof fn lemma_choice_is_first_best(
    fuel: nat,
    g: Grid,
    color: PlayerColor,
    deck: DeckModel,
    last: Option<MoveResult>,
)
    requires
        !is_leaf(fuel, g, color, deck, last),
    ensures
        ({
            let found = search(fuel, i32::MIN as int, i32::MAX as int, g, color, deck, last);
            let all = candidates(g, color, deck);
            let j = first_best(fuel, g, color, deck, all.len() as int);
            &&& 0 <= j < all.len()
            &&& found.best_move == Some(all[j].mov)
            &&& found.best_card == Some(all[j].card)
            &&& found.best_score == minimax(fuel, g, color, deck, last)
            &&& child_value(fuel, g, color, deck, j) == minimax(fuel, g, color, deck, last)
            &&& forall|k: int|
                0 <= k < j ==> #[trigger] child_value(fuel, g, color, deck, k) != minimax(
                    fuel,
                    g,
                    color,
                    deck,
                    last,
                )
        }),
{
    let total = candidates(g, color, deck).len() as int;
    lemma_first_best(fuel, g, color, deck, total);
    lemma_root_scan(
        fuel,
        i32::MIN as int,
        i32::MAX as int,
        g,
        color,
        deck,
        0,
        nothing_yet(color),
    );
}

/// Whether each side has exactly one leader on the board.
pub open spec fn fair(g: Grid) -> bool {
    leaders(g, PlayerColor::Red) == 1 && leaders(g, PlayerColor::Blue) == 1
}

/// The value of a position that the side `color` has just won.
pub open spec fn win_for(color: PlayerColor) -> int {
    sign_of(color) * WIN_SCORE
}

/// On a board with one leader a side, a candidate either wins or leads to
/// a board with one leader a side.
pub proof fn lemma_child_fair(g: Grid, color: PlayerColor, deck: DeckModel, i: int)
    requires
        grid_wf(g),
        fair(g),
        0 <= i < candidates(g, color, deck).len(),
    ensures
        grid_wf(child_grid(g, candidates(g, color, deck)[i])),
        child_result(g, candidates(g, color, deck)[i]) == Some(MoveResult::Win) || fair(
            child_grid(g, candidates(g, color, deck)[i]),
        ),
{
    let c = candidates(g, color, deck)[i];
    lemma_candidates_legal(g, color, deck, i);
    lemma_move_keeps_wf(g, c.mov.from, c.mov.to);
    lemma_move_keeps_leaders(g, c.mov.from, c.mov.to, PlayerColor::Red);
    lemma_move_keeps_leaders(g, c.mov.from, c.mov.to, PlayerColor::Blue);
}

/// Win is terminal: on a board with one leader a side, and after a winning
/// move on any board, no minimax value is better for either side than that
/// of a won position.
pub proof fn lemma_fair_minimax_bound(
    fuel: nat,
    g: Grid,
    color: PlayerColor,
    deck: DeckModel,
    last: Option<MoveResult>,
)
    requires
        grid_wf(g),
        fair(g) || last == Some(MoveResult::Win),
    ensures
        -WIN_SCORE <= minimax(fuel, g, color, deck, last) <= WIN_SCORE,
    decreases fuel, candidates(g, color, deck).len() + 1,
{
    match color {
        PlayerColor::Red => {
            assert(sign_of(color) == 1);
        },
        PlayerColor::Blue => {
            assert(sign_of(color) == -1);
        },
    }
    if is_leaf(fuel, g, color, deck, last) {
        if last != Some(MoveResult::Win) {
            lemma_fair_score_bound(g, color);
        }
    } else {
        lemma_fair_best_upto(fuel, g, color, deck, candidates(g, color, deck).len() as int);
    }
}

/// On a board with one leader a side, the best value of the first `n`
/// candidates is no better for either side than that of a won position.
pub proof fn lemma_fair_best_upto(
    fuel: nat,
    g: Grid,
    color: PlayerColor,
    deck: DeckModel,
    n: int,
)
    requires
        fuel > 0,
        grid_wf(g),
        fair(g),
        1 <= n <= candidates(g, color, deck).len(),
    ensures
        -WIN_SCORE <= best_upto(fuel, g, color, deck, n) <= WIN_SCORE,
        -WIN_SCORE <= child_value(fuel, g, color, deck, n - 1) <= WIN_SCORE,
    decreases fuel, n,
{
    let c = candidates(g, color, deck)[n - 1];
    lemma_child_fair(g, color, deck, n - 1);
    lemma_fair_minimax_bound(
        (fuel - 1) as nat,
        child_grid(g, c),
        color.opponent(),
        deck.rotated(c.slot as int),
        child_result(g, c),
    );
    let value = child_value(fuel, g, color, deck, n - 1);
    let before = best_upto(fuel, g, color, deck, n - 1);
    assert(best_upto(fuel, g, color, deck, n) == better_of(color, before, value));
    if n > 1 {
        lemma_fair_best_upto(fuel, g, color, deck, n - 1);
    } else {
        assert(before == sentinel(color));
    }
}

/// A win in one ply is found: on a board with one leader a side, when one
/// of the candidates of the side to move wins at once, the search from the
/// bounds wide open scores the node as won by that side, whatever its
/// depth, and the move that it returns leads to a position of that value.
pub proof fn lemma_win_in_one_is_found(
    fuel: nat,
    g: Grid,
    color: PlayerColor,
    deck: DeckModel,
    last: Option<MoveResult>,
    i: int,
)
    requires
        grid_wf(g),
        fair(g),
        fuel > 0,
        last != Some(MoveResult::Win),
        0 <= i < candidates(g, color, deck).len(),
        child_result(g, candidates(g, color, deck)[i]) == Some(MoveResult::Win),
    ensures
        minimax(fuel, g, color, deck, last) == win_for(color),
        search(fuel, i32::MIN as int, i32::MAX as int, g, color, deck, last).best_score
            == win_for(color),
        child_value(
            fuel,
            g,
            color,
            deck,
            first_best(fuel, g, color, deck, candidates(g, color, deck).len() as int),
        ) == win_for(color),
        first_best(fuel, g, color, deck, candidates(g, color, deck).len() as int) <= i,
{
    let total = candidates(g, color, deck).len() as int;
    lemma_first_best(fuel, g, color, deck, total);
    lemma_fair_best_upto(fuel, g, color, deck, total);
    lemma_choice_is_first_best(fuel, g, color, deck, last);
    match color {
        PlayerColor::Red => {
            assert(sign_of(color) == 1 && sign_of(color.opponent()) == -1);
        },
        PlayerColor::Blue => {
            assert(sign_of(color) == -1 && sign_of(color.opponent()) == 1);
        },
    }
    assert(child_value(fuel, g, color, deck, i) == win_for(color));
}

/// The minimax choice of the side to move with `depth` plies to look
/// ahead: at a leaf no card and no move, with the evaluation of the
/// position; and else the first candidate that leads to the minimax value
/// of the position, with its card and that value.
pub open spec fn minimax_choice(depth: nat, g: Grid, color: PlayerColor, deck: DeckModel) -> (
    Option<CardId>,
    Option<Move>,
    int,
) {
    if is_leaf(depth, g, color, deck, None) {
        (None, None, evaluation(g, color, None))
    } else {
        let all = candidates(g, color, deck);
        let j = first_best(depth, g, color, deck, all.len() as int);
        (Some(all[j].card), Some(all[j].mov), minimax(depth, g, color, deck, None))
    }
}

/// The choice of the search agent is the minimax choice: pruning changes
/// neither the score nor the move.
pub proof fn lemma_chosen_is_minimax_choice(
    depth: nat,
    g: Grid,
    color: PlayerColor,
    deck: DeckModel,
)
    ensures
        chosen(depth, g, color, deck) == minimax_choice(depth, g, color, deck),
{
    if !is_leaf(depth, g, color, deck, None) {
        lemma_choice_is_first_best(depth, g, color, deck, None);
    }
}

} // verus!
