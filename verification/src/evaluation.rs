use vstd::prelude::*;
use vstd::string::*;
use crate::coordinates::Coordinates;
use crate::pieces::{Piece, PieceKind};
use crate::player::PlayerColor;
use crate::tile_map::{
    grid_at, leaders, leaders_upto, lemma_leaders_range, square, temple, temple_of, Grid,
    MoveResult, TileMap,
};

verus! {

/// The score of a position in which the game has just been won.
pub const WIN_SCORE: i32 = 10000;

/// The static evaluation of a position.
#[derive(Debug)]
pub struct Evaluation;

/// A score to show to the user.
#[derive(Debug, Clone, Copy)]
pub struct EvaluationResult {
    pub score: i32,
}

impl EvaluationResult {
    /// The score as a line of text: a fixed label, then the score in
    /// decimal digits.
    pub fn to_string(&self) -> (r: String)
        ensures
            exists|digits: String|
                to_string_from_display_ensures(&self.score, digits) && r@ == "Evaluation result: "@
                    + digits@,
    {
        let digits = self.score.to_string();
        let mut r = String::from_str("Evaluation result: ");
        r.append(digits.as_str());
        r
    }
}

impl Default for EvaluationResult {
    fn default() -> (r: Self)
        ensures
            r.score == 0,
    {
        Self { score: 0 }
    }
}

/// The Manhattan distance between two squares.
pub open spec fn manhattan(from: Coordinates, to: Coordinates) -> int {
    let dx = to.x - from.x;
    let dy = to.y - from.y;
    (if dx < 0 {
        -dx
    } else {
        dx
    }) + (if dy < 0 {
        -dy
    } else {
        dy
    })
}

/// The material value of a piece: a soldier counts 10, a leader 10000.
pub open spec fn piece_value(kind: PieceKind) -> int {
    match kind {
        PieceKind::Pawn => 10,
        PieceKind::King => 10000,
    }
}

/// The positional bonus of a square: 16 on the centre, and 4 less for each
/// step away from it.
pub open spec fn square_bonus(c: Coordinates) -> int {
    16 - 4 * manhattan(c, Coordinates { x: 2, y: 2 })
}

/// What is summed over the pieces of a side.
pub enum Measure {
    /// The material value of each piece.
    Material,
    /// The positional bonus of the square of each piece.
    Position,
    /// The Manhattan distance of each piece to a square.
    Distance(Coordinates),
}

/// What a piece on a square contributes to a measure.
pub open spec fn weight(measure: Measure, c: Coordinates, piece: Piece) -> int {
    match measure {
        Measure::Material => piece_value(piece.kind),
        Measure::Position => square_bonus(c),
        Measure::Distance(target) => manhattan(c, target),
    }
}

/// The sum of a measure over the pieces of a side on the first `n` squares
/// in row-major order.
pub open spec fn tally_upto(g: Grid, color: PlayerColor, measure: Measure, n: int) -> int
    decreases n,
{
    if n <= 0 {
        0
    } else {
        let c = square(n - 1);
        tally_upto(g, color, measure, n - 1) + (match grid_at(g, c) {
            Some(piece) => if piece.color == color {
                weight(measure, c, piece)
            } else {
                0
            },
            None => 0,
        })
    }
}

/// The sum of a measure over all pieces of a side.
pub open spec fn tally(g: Grid, color: PlayerColor, measure: Measure) -> int {
    tally_upto(g, color, measure, 25)
}

/// The square of the leader of a side among the first `n` squares in
/// row-major order: the first one found, if there is any.
pub open spec fn leader_upto(g: Grid, color: PlayerColor, n: int) -> Option<Coordinates>
    decreases n,
{
    if n <= 0 {
        None
    } else {
        match leader_upto(g, color, n - 1) {
            Some(c) => Some(c),
            None => if grid_at(g, square(n - 1)) == Some(
                Piece { color, kind: PieceKind::King },
            ) {
                Some(square(n - 1))
            } else {
                None
            },
        }
    }
}

/// The square of the leader of a side, if it is on the board.
pub open spec fn leader(g: Grid, color: PlayerColor) -> Option<Coordinates> {
    leader_upto(g, color, 25)
}

/// The square that the other side's pieces are measured against: the leader
/// of the side, or its temple when the leader is gone.
pub open spec fn stronghold(g: Grid, color: PlayerColor) -> Coordinates {
    match leader(g, color) {
        Some(c) => c,
        None => temple_of(color),
    }
}

/// The distance of a side's leader to the temple of the other side, and 0
/// when the leader is gone.
pub open spec fn goal_distance(g: Grid, color: PlayerColor) -> int {
    match leader(g, color) {
        Some(c) => manhattan(c, temple_of(color.opponent())),
        None => 0,
    }
}

/// The score of a position seen from one side: the difference in material,
/// less the difference of the leaders' distances to the temples they aim at
/// (the other side's first), plus the difference of the distances that the
/// pieces keep from the opposing leader (the other side's first), plus the
/// difference in positional bonus.
pub open spec fn side_score(g: Grid, me: PlayerColor) -> int {
    let foe = me.opponent();
    (tally(g, me, Measure::Material) - tally(g, foe, Measure::Material)) - (goal_distance(g, foe)
        - goal_distance(g, me)) + (tally(g, foe, Measure::Distance(stronghold(g, me))) - tally(
        g,
        me,
        Measure::Distance(stronghold(g, foe)),
    )) + (tally(g, me, Measure::Position) - tally(g, foe, Measure::Position))
}

/// The sign with which a side's own score enters the evaluation: Red's
/// counts as it is, Blue's negated.
pub open spec fn sign_of(color: PlayerColor) -> int {
    match color {
        PlayerColor::Red => 1,
        PlayerColor::Blue => -1,
    }
}

/// The evaluation of a position with `color` to move, after a move that
/// gave `last`: positive values favour Red. A position reached by a winning
/// move counts `WIN_SCORE` for the side that made the move.
pub open spec fn evaluation(g: Grid, color: PlayerColor, last: Option<MoveResult>) -> int {
    if last == Some(MoveResult::Win) {
        -sign_of(color) * WIN_SCORE
    } else {
        sign_of(color) * side_score(g, color)
    }
}

/// The largest absolute value of an evaluation.
pub open spec fn score_bound() -> int {
    251000
}

/// The terms of the evaluation are bounded.
pub proof fn lemma_tally_bounds(g: Grid, color: PlayerColor, measure: Measure, n: int)
    requires
        0 <= n <= 25,
        measure matches Measure::Distance(target) ==> target.on_board(),
    ensures
        measure is Material ==> 0 <= tally_upto(g, color, measure, n) <= 10000 * n,
        measure is Position ==> 0 <= tally_upto(g, color, measure, n) <= 16 * n,
        measure is Distance ==> 0 <= tally_upto(g, color, measure, n) <= 8 * n,
    decreases n,
{
    if n > 0 {
        lemma_tally_bounds(g, color, measure, n - 1);
        assert(square(n - 1).on_board());
    }
}

/// The first leader found lies on the board and is a leader of that side.
pub proof fn lemma_leader_found(g: Grid, color: PlayerColor, n: int)
    requires
        0 <= n <= 25,
    ensures
        leader_upto(g, color, n) matches Some(c) ==> c.on_board() && grid_at(g, c) == Some(
            Piece { color, kind: PieceKind::King },
        ),
    decreases n,
{
    if n > 0 {
        lemma_leader_found(g, color, n - 1);
        assert(square(n - 1).on_board());
    }
}

/// The squares that pieces are measured against lie on the board.
pub proof fn lemma_stronghold_on_board(g: Grid, color: PlayerColor)
    ensures
        stronghold(g, color).on_board(),
        0 <= goal_distance(g, color) <= 8,
{
    lemma_leader_found(g, color, 25);
}

/// The score of a position seen from one side is bounded.
pub proof fn lemma_side_score_bound(g: Grid, me: PlayerColor)
    ensures
        -score_bound() <= side_score(g, me) <= score_bound(),
{
    let foe = me.opponent();
    lemma_stronghold_on_board(g, me);
    lemma_stronghold_on_board(g, foe);
    lemma_tally_bounds(g, me, Measure::Material, 25);
    lemma_tally_bounds(g, foe, Measure::Material, 25);
    lemma_tally_bounds(g, me, Measure::Position, 25);
    lemma_tally_bounds(g, foe, Measure::Position, 25);
    lemma_tally_bounds(g, foe, Measure::Distance(stronghold(g, me)), 25);
    lemma_tally_bounds(g, me, Measure::Distance(stronghold(g, foe)), 25);
}

/// Every evaluation lies within the score bound, and so strictly between the
/// two sentinels of the search.
pub proof fn lemma_evaluation_bound(g: Grid, color: PlayerColor, last: Option<MoveResult>)
    ensures
        -score_bound() <= evaluation(g, color, last) <= score_bound(),
{
    lemma_side_score_bound(g, color);
    match color {
        PlayerColor::Red => {
            assert(sign_of(color) == 1);
        },
        PlayerColor::Blue => {
            assert(sign_of(color) == -1);
        },
    }
}

/// The material of a side is that of its leaders and of at most as many
/// soldiers as there are squares left.
pub proof fn lemma_material_range(g: Grid, color: PlayerColor, n: int)
    requires
        0 <= n <= 25,
    ensures
        10000 * leaders_upto(g, color, n) <= tally_upto(g, color, Measure::Material, n) <= 10000
            * leaders_upto(g, color, n) + 10 * (n - leaders_upto(g, color, n)),
    decreases n,
{
    if n > 0 {
        lemma_material_range(g, color, n - 1);
        lemma_leaders_range(g, color, n - 1);
    }
}

/// The greatest absolute score of a position on which each side has one
/// leader.
pub open spec fn fair_bound() -> int {
    848
}

/// Material dominates: while each side has exactly one leader, the score
/// of a position stays within `fair_bound`, far below the value of a leader
/// and below the score of a win.
pub proof fn lemma_fair_score_bound(g: Grid, me: PlayerColor)
    requires
        leaders(g, PlayerColor::Red) == 1,
        leaders(g, PlayerColor::Blue) == 1,
    ensures
        -fair_bound() <= side_score(g, me) <= fair_bound(),
        fair_bound() < WIN_SCORE,
{
    let foe = me.opponent();
    lemma_stronghold_on_board(g, me);
    lemma_stronghold_on_board(g, foe);
    lemma_material_range(g, me, 25);
    lemma_material_range(g, foe, 25);
    lemma_tally_bounds(g, me, Measure::Position, 25);
    lemma_tally_bounds(g, foe, Measure::Position, 25);
    lemma_tally_bounds(g, foe, Measure::Distance(stronghold(g, me)), 25);
    lemma_tally_bounds(g, me, Measure::Distance(stronghold(g, foe)), 25);
}

/// What one side gains the other loses: the two sides' scores of a position
/// add up to zero.
pub proof fn lemma_side_score_antisymmetric(g: Grid, color: PlayerColor)
    ensures
        side_score(g, color.opponent()) == -side_score(g, color),
{
}

/// Unless the last move has won, the evaluation does not depend on the side
/// to move.
pub proof fn lemma_evaluation_ignores_side(g: Grid, last: Option<MoveResult>)
    requires
        last != Some(MoveResult::Win),
    ensures
        evaluation(g, PlayerColor::Red, last) == evaluation(g, PlayerColor::Blue, last),
{
    lemma_side_score_antisymmetric(g, PlayerColor::Red);
}

impl Evaluation {
    /// The Manhattan distance between two squares.
    pub fn manhattan_distance(from: Coordinates, to: Coordinates) -> (r: i32)
        ensures
            r == manhattan(from, to),
    {
        let dx: i32 = to.x as i32 - from.x as i32;
        let dy: i32 = to.y as i32 - from.y as i32;
        let ax: i32 = if dx < 0 {
            -dx
        } else {
            dx
        };
        let ay: i32 = if dy < 0 {
            -dy
        } else {
            dy
        };
        ax + ay
    }

    /// The positional bonus of a square, read off the table.
    pub fn piece_square(c: Coordinates) -> (r: i32)
        requires
            c.on_board(),
        ensures
            r == square_bonus(c),
    {
        let table: [[i32; 5]; 5] = [
            [0, 4, 8, 4, 0],
            [4, 8, 12, 8, 4],
            [8, 12, 16, 12, 8],
            [4, 8, 12, 8, 4],
            [0, 4, 8, 4, 0],
        ];
        table[c.y as usize][c.x as usize]
    }

    /// The squares of the two leaders, as far as they are on the board.
    pub fn find_leaders(board: &TileMap) -> (r: (Option<Coordinates>, Option<Coordinates>))
        ensures
            r.0 == leader(board@, PlayerColor::Red),
            r.1 == leader(board@, PlayerColor::Blue),
    {
        let mut red: Option<Coordinates> = None;
        let mut blue: Option<Coordinates> = None;
        let mut k: u8 = 0;
        while k < 25
            invariant
                k <= 25,
                red == leader_upto(board@, PlayerColor::Red, k as int),
                blue == leader_upto(board@, PlayerColor::Blue, k as int),
            decreases 25 - k,
        {
            let c = Coordinates { x: k % 5, y: k / 5 };
            assert(c == square(k as int));
            if let Some(piece) = board.piece_at(c) {
                if piece.kind == PieceKind::King {
                    match piece.color {
                        PlayerColor::Red => {
                            if red.is_none() {
                                red = Some(c);
                            }
                        },
                        PlayerColor::Blue => {
                            if blue.is_none() {
                                blue = Some(c);
                            }
                        },
                    }
                }
            }
            k += 1;
        }
        (red, blue)
    }

    /// Scores the position on `board` with `curr_color` to move, after a
    /// move that gave `move_result`. Positive scores favour Red.
    pub fn evaluate(
        board: &TileMap,
        curr_color: &PlayerColor,
        move_result: &Option<MoveResult>,
    ) -> (score: i32)
        ensures
            score == evaluation(board@, *curr_color, *move_result),
            -score_bound() <= score <= score_bound(),
    {
        let me = *curr_color;
        let foe = me.enemy();
        let sign: i32 = match me {
            PlayerColor::Red => 1,
            PlayerColor::Blue => -1,
        };
        if let Some(result) = move_result {
            if *result == MoveResult::Win {
                return -sign * WIN_SCORE;
            }
        }
        let (red_leader, blue_leader) = Self::find_leaders(board);
        let (my_leader, foe_leader) = match me {
            PlayerColor::Red => (red_leader, blue_leader),
            PlayerColor::Blue => (blue_leader, red_leader),
        };
        let my_temple = temple(me);
        let foe_temple = temple(foe);
        let my_hold = match my_leader {
            Some(c) => c,
            None => my_temple,
        };
        let foe_hold = match foe_leader {
            Some(c) => c,
            None => foe_temple,
        };
        let my_goal: i32 = match my_leader {
            Some(c) => Self::manhattan_distance(c, foe_temple),
            None => 0,
        };
        let foe_goal: i32 = match foe_leader {
            Some(c) => Self::manhattan_distance(c, my_temple),
            None => 0,
        };
        proof {
            lemma_stronghold_on_board(board@, me);
            lemma_stronghold_on_board(board@, foe);
        }
        let mut my_material: i32 = 0;
        let mut foe_material: i32 = 0;
        let mut my_distance: i32 = 0;
        let mut foe_distance: i32 = 0;
        let mut my_position: i32 = 0;
        let mut foe_position: i32 = 0;
        let mut k: u8 = 0;
        while k < 25
            invariant
                k <= 25,
                foe == me.opponent(),
                my_hold == stronghold(board@, me),
                foe_hold == stronghold(board@, foe),
                my_hold.on_board(),
                foe_hold.on_board(),
                my_material == tally_upto(board@, me, Measure::Material, k as int),
                foe_material == tally_upto(board@, foe, Measure::Material, k as int),
                my_position == tally_upto(board@, me, Measure::Position, k as int),
                foe_position == tally_upto(board@, foe, Measure::Position, k as int),
                my_distance == tally_upto(board@, me, Measure::Distance(foe_hold), k as int),
                foe_distance == tally_upto(board@, foe, Measure::Distance(my_hold), k as int),
            decreases 25 - k,
        {
            let c = Coordinates { x: k % 5, y: k / 5 };
            assert(c == square(k as int));
            proof {
                lemma_tally_bounds(board@, me, Measure::Material, k as int);
                lemma_tally_bounds(board@, foe, Measure::Material, k as int);
                lemma_tally_bounds(board@, me, Measure::Position, k as int);
                lemma_tally_bounds(board@, foe, Measure::Position, k as int);
                lemma_tally_bounds(board@, me, Measure::Distance(foe_hold), k as int);
                lemma_tally_bounds(board@, foe, Measure::Distance(my_hold), k as int);
            }
            if let Some(piece) = board.piece_at(c) {
                let value: i32 = match piece.kind {
                    PieceKind::Pawn => 10,
                    PieceKind::King => 10000,
                };
                if piece.color == me {
                    my_material += value;
                    my_distance += Self::manhattan_distance(c, foe_hold);
                    my_position += Self::piece_square(c);
                } else {
                    foe_material += value;
                    foe_distance += Self::manhattan_distance(c, my_hold);
                    foe_position += Self::piece_square(c);
                }
            }
            k += 1;
        }
        proof {
            lemma_tally_bounds(board@, me, Measure::Material, 25);
            lemma_tally_bounds(board@, foe, Measure::Material, 25);
            lemma_tally_bounds(board@, me, Measure::Position, 25);
            lemma_tally_bounds(board@, foe, Measure::Position, 25);
            lemma_tally_bounds(board@, me, Measure::Distance(foe_hold), 25);
            lemma_tally_bounds(board@, foe, Measure::Distance(my_hold), 25);
            lemma_side_score_bound(board@, me);
        }
        let total: i32 = (my_material - foe_material) - (foe_goal - my_goal) + (foe_distance
            - my_distance) + (my_position - foe_position);
        sign * total
    }
}

} // verus!
