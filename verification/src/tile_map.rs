use vstd::prelude::*;
use vstd::string::*;
use crate::card::Card;
use crate::coordinates::Coordinates;
use crate::deck::{CardId, Deck, DeckModel};
use crate::game_state::GameState;
use crate::pieces::{Piece, PieceKind};
use crate::player::PlayerColor;
use crate::tile::{shows, Tile};

verus! {

/// What a move did at its destination.
#[derive(Debug, Clone, Copy, PartialEq, Eq, Structural)]
pub enum MoveResult {
    Win,
    Tie,
    Capture,
    Move,
}

/// A move of one piece from a square to another.
#[derive(Debug, Clone, Copy, PartialEq, Eq, Structural)]
pub struct Move {
    pub from: Coordinates,
    pub to: Coordinates,
}

impl Default for Move {
    fn default() -> (r: Self)
        ensures
            r == (Move { from: Coordinates { x: 0, y: 0 }, to: Coordinates { x: 0, y: 0 } }),
    {
        Self { from: Coordinates { x: 0, y: 0 }, to: Coordinates { x: 0, y: 0 } }
    }
}

/// The moves that one card gives the side to move.
#[derive(Debug)]
pub struct PossibleMoves {
    pub card: CardId,
    pub moves: Vec<Move>,
}

/// The mathematical model of a board: five rows of five squares, each empty
/// or holding a piece. Row `y`, column `x` is `g[y][x]`.
pub type Grid = Seq<Seq<Option<Piece>>>;

/// A grid has five rows of five squares.
pub open spec fn grid_wf(g: Grid) -> bool {
    g.len() == 5 && forall|y: int| 0 <= y < 5 ==> (#[trigger] g[y]).len() == 5
}

/// The occupant of a square.
pub open spec fn grid_at(g: Grid, c: Coordinates) -> Option<Piece> {
    g[c.y as int][c.x as int]
}

/// The grid with the occupant of one square replaced.
pub open spec fn grid_put(g: Grid, c: Coordinates, p: Option<Piece>) -> Grid {
    g.update(c.y as int, g[c.y as int].update(c.x as int, p))
}

/// Whether a square holds a piece of the given side.
pub open spec fn holds_side(g: Grid, c: Coordinates, color: PlayerColor) -> bool {
    match grid_at(g, c) {
        Some(p) => p.color == color,
        None => false,
    }
}

/// The temple that belongs to a side: the middle square of its back row.
pub open spec fn temple_of(color: PlayerColor) -> Coordinates {
    match color {
        PlayerColor::Red => Coordinates { x: 2, y: 0 },
        PlayerColor::Blue => Coordinates { x: 2, y: 4 },
    }
}

/// The temple that belongs to a side.
pub fn temple(color: PlayerColor) -> (r: Coordinates)
    ensures
        r == temple_of(color),
{
    match color {
        PlayerColor::Red => Coordinates { x: 2, y: 0 },
        PlayerColor::Blue => Coordinates { x: 2, y: 4 },
    }
}

/// Whether a piece may be moved from `from` to `to`: both squares lie on the
/// board, `from` holds a piece, and `to` holds no piece of the same side.
pub open spec fn move_allowed(g: Grid, from: Coordinates, to: Coordinates) -> bool {
    &&& from.on_board()
    &&& to.on_board()
    &&& grid_at(g, from) is Some
    &&& !holds_side(g, to, grid_at(g, from)->Some_0.color)
}

/// The grid after the piece on `from` went to `to`.
pub open spec fn grid_after_move(g: Grid, from: Coordinates, to: Coordinates) -> Grid {
    grid_put(grid_put(g, from, None), to, grid_at(g, from))
}

/// How a move is classified: a win when it takes the opposing leader or brings
/// the mover's leader onto the opposing temple, else a capture when it takes a
/// piece, else a plain move.
pub open spec fn move_outcome(g: Grid, from: Coordinates, to: Coordinates) -> MoveResult {
    let mover = grid_at(g, from)->Some_0;
    let target = grid_at(g, to);
    if target is Some && target->Some_0.kind == PieceKind::King {
        MoveResult::Win
    } else if mover.kind == PieceKind::King && to == temple_of(mover.color.opponent()) {
        MoveResult::Win
    } else if target is Some {
        MoveResult::Capture
    } else {
        MoveResult::Move
    }
}

/// The grid after a move is taken back: the piece on `from` returns to `to`,
/// and `from` gets back what stood there before the move.
pub open spec fn grid_after_undo(
    g: Grid,
    from: Coordinates,
    to: Coordinates,
    captured: Option<Piece>,
) -> Grid {
    grid_put(grid_put(g, to, grid_at(g, from)), from, captured)
}

/// Whether `(result, captured)` is what the move from `to` to `from` gave on
/// the board that taking it back leads to, and `g` is the board it left.
pub open spec fn undo_matches(
    g: Grid,
    from: Coordinates,
    to: Coordinates,
    result: MoveResult,
    captured: Option<Piece>,
) -> bool {
    let before = grid_after_undo(g, from, to, captured);
    &&& move_allowed(before, to, from)
    &&& grid_at(before, from) == captured
    &&& move_outcome(before, to, from) == result
    &&& grid_after_move(before, to, from) == g
}

/// The square with row-major rank `k`: column `k % 5` of row `k / 5`.
pub open spec fn square(k: int) -> Coordinates {
    Coordinates { x: (k % 5) as u8, y: (k / 5) as u8 }
}

/// The square that the `i`-th effective offset of a card leads to from
/// `from`, when it lies on the board.
pub open spec fn target_of(from: Coordinates, card: Card, i: int) -> Option<Coordinates> {
    from.shifted(card.effective_at(i).0, card.effective_at(i).1)
}

/// Whether the `i`-th offset of a card gives the side `color` a destination
/// from `from`: the target lies on the board and holds no piece of that side.
pub open spec fn step_allowed(
    g: Grid,
    color: PlayerColor,
    from: Coordinates,
    card: Card,
    i: int,
) -> bool {
    match target_of(from, card, i) {
        Some(to) => !holds_side(g, to, color),
        None => false,
    }
}

/// The moves that the first `k` offsets of a card give from `from`, in the
/// order of the offsets.
pub open spec fn piece_moves(
    g: Grid,
    color: PlayerColor,
    from: Coordinates,
    card: Card,
    k: int,
) -> Seq<Move>
    decreases k,
{
    if k <= 0 {
        Seq::empty()
    } else {
        let prev = piece_moves(g, color, from, card, k - 1);
        if step_allowed(g, color, from, card, k - 1) {
            prev.push(Move { from, to: target_of(from, card, k - 1)->Some_0 })
        } else {
            prev
        }
    }
}

/// The destinations that a card gives the side `color` from `from`, in the
/// order of the card's offsets.
pub open spec fn destinations(
    g: Grid,
    color: PlayerColor,
    from: Coordinates,
    card: Card,
) -> Seq<Coordinates> {
    piece_moves(g, color, from, card, card.directions@.len() as int).map_values(|m: Move| m.to)
}

/// The moves that a card gives the pieces of `color` on the first `n` squares
/// in row-major order, square by square and offset by offset.
pub open spec fn side_moves_upto(g: Grid, color: PlayerColor, card: Card, n: int) -> Seq<Move>
    decreases n,
{
    if n <= 0 {
        Seq::empty()
    } else {
        let prev = side_moves_upto(g, color, card, n - 1);
        if holds_side(g, square(n - 1), color) {
            prev + piece_moves(g, color, square(n - 1), card, card.directions@.len() as int)
        } else {
            prev
        }
    }
}

/// All moves that a card gives the side `color`, in row-major order of the
/// moving piece and then in the order of the card's offsets.
pub open spec fn card_moves(g: Grid, color: PlayerColor, card: Card) -> Seq<Move> {
    side_moves_upto(g, color, card, 25)
}

/// Whether `m` is a move that the card gives the side `color`: a piece of
/// that side stands on `m.from`, and one of the card's effective offsets
/// leads from there to `m.to`, on the board and not onto a piece of that side.
pub open spec fn legal_move(g: Grid, color: PlayerColor, card: Card, m: Move) -> bool {
    &&& m.from.on_board()
    &&& holds_side(g, m.from, color)
    &&& exists|i: int|
        0 <= i < card.directions@.len() && #[trigger] target_of(m.from, card, i) == Some(m.to)
            && !holds_side(g, m.to, color)
}

/// The texts of the first `n` squares of a row, one after the other.
pub open spec fn row_text(cells: Seq<Seq<char>>, n: int) -> Seq<char>
    decreases n,
{
    if n <= 0 {
        Seq::empty()
    } else {
        row_text(cells, n - 1) + cells[n - 1]
    }
}

/// The lines of the topmost `n` rows of the board, row 4 first: each is a
/// bar, the texts of the five squares of the row, a bar and a line break.
pub open spec fn rows_text(cells: Seq<Seq<Seq<char>>>, n: int) -> Seq<char>
    decreases n,
{
    if n <= 0 {
        Seq::empty()
    } else {
        rows_text(cells, n - 1) + "|"@ + row_text(cells[5 - n], 5) + "|\n"@
    }
}

/// The picture of a board whose squares are shown by the texts `cells`: a
/// heading, a rule, the rows from row 4 down to row 0, and a rule.
pub open spec fn board_text(cells: Seq<Seq<Seq<char>>>) -> Seq<char> {
    "Board (5, 5):\n"@ + "-------"@ + "\n"@ + rows_text(cells, 5) + "-------"@
}

/// Whether the texts `cells` show the squares of a board, square by square.
pub open spec fn cells_show(g: Grid, cells: Seq<Seq<Seq<char>>>) -> bool {
    &&& cells.len() == 5
    &&& forall|y: int| 0 <= y < 5 ==> (#[trigger] cells[y]).len() == 5
    &&& forall|x: int, y: int| 0 <= x < 5 && 0 <= y < 5 ==> shows(g[y][x], #[trigger] cells[y][x])
}

/// Whether a square holds the leader of a side, as a number: 1 or 0.
pub open spec fn leader_here(occupant: Option<Piece>, color: PlayerColor) -> int {
    if occupant == Some(Piece { color, kind: PieceKind::King }) {
        1
    } else {
        0
    }
}

/// The number of leaders of a side on the first `n` squares in row-major order.
pub open spec fn leaders_upto(g: Grid, color: PlayerColor, n: int) -> int
    decreases n,
{
    if n <= 0 {
        0
    } else {
        leaders_upto(g, color, n - 1) + leader_here(grid_at(g, square(n - 1)), color)
    }
}

/// The number of leaders of a side on the board.
pub open spec fn leaders(g: Grid, color: PlayerColor) -> int {
    leaders_upto(g, color, 25)
}

/// The occupant of a square in the initial formation: Red's five pieces on
/// row 0 and Blue's on row 4, each leader on column 2 between four soldiers.
pub open spec fn initial_piece(x: int, y: int) -> Option<Piece> {
    let kind = if x == 2 {
        PieceKind::King
    } else {
        PieceKind::Pawn
    };
    if y == 0 {
        Some(Piece { color: PlayerColor::Red, kind })
    } else if y == 4 {
        Some(Piece { color: PlayerColor::Blue, kind })
    } else {
        None
    }
}

/// The board at the start of a match.
pub open spec fn initial_grid() -> Grid {
    Seq::new(5, |y: int| Seq::new(5, |x: int| initial_piece(x, y)))
}

/// The base tile map: the 5x5 grid of squares.
#[derive(Debug, Clone, Copy)]
pub struct TileMap {
    pub map: [[Tile; 5]; 5],
}

impl View for TileMap {
    type V = Grid;

    open spec fn view(&self) -> Grid {
        Seq::new(5, |y: int| Seq::new(5, |x: int| self.map[y][x].piece))
    }
}

impl TileMap {
    /// The board in its initial formation.
    pub fn new() -> (r: Self)
        ensures
            r@ == initial_grid(),
    {
        let blue_pawn = Piece::new(PieceKind::Pawn, PlayerColor::Blue);
        let blue_king = Piece::new(PieceKind::King, PlayerColor::Blue);
        let red_pawn = Piece::new(PieceKind::Pawn, PlayerColor::Red);
        let red_king = Piece::new(PieceKind::King, PlayerColor::Red);
        let empty = [
            Tile::new(None),
            Tile::new(None),
            Tile::new(None),
            Tile::new(None),
            Tile::new(None),
        ];
        let map = [
            [
                Tile::new(Some(red_pawn)),
                Tile::new(Some(red_pawn)),
                Tile::new(Some(red_king)),
                Tile::new(Some(red_pawn)),
                Tile::new(Some(red_pawn)),
            ],
            empty,
            empty,
            empty,
            [
                Tile::new(Some(blue_pawn)),
                Tile::new(Some(blue_pawn)),
                Tile::new(Some(blue_king)),
                Tile::new(Some(blue_pawn)),
                Tile::new(Some(blue_pawn)),
            ],
        ];
        let r = Self { map };
        assert(r@ =~~= initial_grid());
        r
    }

    /// Number of columns.
    #[inline]
    pub fn width(&self) -> (r: u8)
        ensures
            r == 5,
    {
        5
    }

    /// Number of rows.
    #[inline]
    pub fn height(&self) -> (r: u8)
        ensures
            r == 5,
    {
        5
    }

    /// A picture of the board for the console: a heading, a rule, the rows
    /// from row 4 down to row 0 between bars, and a rule. Each square is
    /// shown as its tile shows itself.
    pub fn console_output(&self) -> (out: String)
        ensures
            exists|cells: Seq<Seq<Seq<char>>>|
                cells_show(self@, cells) && out@ == board_text(cells),
    {
        let mut buffer = String::from_str("Board (5, 5):\n");
        buffer.append("-------");
        buffer.append("\n");
        let ghost head = buffer@;
        let ghost mut cells: Seq<Seq<Seq<char>>> = Seq::new(5, |y: int| Seq::empty());
        let mut n: usize = 0;
        while n < 5
            invariant
                n <= 5,
                head == "Board (5, 5):\n"@ + "-------"@ + "\n"@,
                cells.len() == 5,
                forall|y: int| 5 - n <= y < 5 ==> (#[trigger] cells[y]).len() == 5,
                forall|x: int, y: int|
                    0 <= x < 5 && 5 - n <= y < 5 ==> shows(self@[y][x], #[trigger] cells[y][x]),
                buffer@ == head + rows_text(cells, n as int),
            decreases 5 - n,
        {
            let y: usize = 4 - n;
            let ghost before = buffer@;
            let ghost old_cells = cells;
            buffer.append("|");
            let ghost mut row: Seq<Seq<char>> = Seq::empty();
            let mut x: usize = 0;
            while x < 5
                invariant
                    x <= 5,
                    y < 5,
                    row.len() == x,
                    forall|k: int| 0 <= k < x ==> shows(self@[y as int][k], #[trigger] row[k]),
                    buffer@ == before + "|"@ + row_text(row, x as int),
                decreases 5 - x,
            {
                let text = self.map[y][x].console_output();
                buffer.append(text.as_str());
                proof {
                    let longer = row.push(text@);
                    lemma_row_text_prefix(row, longer, x as int);
                    row = longer;
                }
                x += 1;
            }
            buffer.append("|\n");
            proof {
                cells = old_cells.update(y as int, row);
                lemma_rows_text_prefix(old_cells, cells, n as int);
                assert(cells[5 - (n + 1)] == row);
                assert(buffer@ =~= head + rows_text(cells, n + 1));
            }
            n += 1;
        }
        buffer.append("-------");
        proof {
            assert(cells_show(self@, cells));
            assert(buffer@ =~= board_text(cells));
        }
        buffer
    }

    /// What stands on a square.
    pub fn piece_at(&self, c: Coordinates) -> (r: Option<Piece>)
        requires
            c.on_board(),
        ensures
            r == grid_at(self@, c),
    {
        self.map[c.y as usize][c.x as usize].piece
    }

    /// Puts `p` on a square, or clears it.
    pub fn set_piece(&mut self, c: Coordinates, p: Option<Piece>)
        requires
            c.on_board(),
        ensures
            final(self)@ == grid_put(old(self)@, c, p),
    {
        self.map[c.y as usize][c.x as usize].piece = p;
        assert(self@ =~~= grid_put(old(self)@, c, p));
    }

    /// Appends to `moves` the moves that `card` gives the side `color` from `from`.
    fn push_piece_moves(
        &self,
        color: PlayerColor,
        from: Coordinates,
        card: &Card,
        moves: &mut Vec<Move>,
    )
        ensures
            final(moves)@ == old(moves)@ + piece_moves(
                self@,
                color,
                from,
                *card,
                card.directions@.len() as int,
            ),
    {
        let n = card.directions.len();
        let mut i: usize = 0;
        assert(moves@ =~= old(moves)@ + piece_moves(self@, color, from, *card, 0));
        while i < n
            invariant
                i <= n,
                n == card.directions@.len(),
                moves@ == old(moves)@ + piece_moves(self@, color, from, *card, i as int),
            decreases n - i,
        {
            let d = card.direction(i);
            let ghost before = moves@;
            if let Some(to) = from.offset(d.0, d.1) {
                let free = match self.piece_at(to) {
                    Some(piece) => piece.color != color,
                    None => true,
                };
                if free {
                    moves.push(Move { from, to });
                }
            }
            i += 1;
            assert(moves@ =~= old(moves)@ + piece_moves(self@, color, from, *card, i as int));
        }
    }

    /// The squares that `card` lets the side to move reach from `coordinates`:
    /// each effective offset of the card in turn, without the targets off the
    /// board and those that hold a piece of that side.
    pub fn generate_allowed_moves(
        &self,
        coordinates: &Coordinates,
        card: &Card,
        game_state: &GameState,
    ) -> (r: Vec<Coordinates>)
        ensures
            r@ == destinations(self@, game_state.curr_color, *coordinates, *card),
    {
        let mut moves: Vec<Move> = Vec::new();
        self.push_piece_moves(game_state.curr_color, *coordinates, card, &mut moves);
        let mut r: Vec<Coordinates> = Vec::new();
        let mut i: usize = 0;
        while i < moves.len()
            invariant
                i <= moves@.len(),
                r@ == moves@.take(i as int).map_values(|m: Move| m.to),
            decreases moves@.len() - i,
        {
            r.push(moves[i].to);
            i += 1;
            assert(r@ =~= moves@.take(i as int).map_values(|m: Move| m.to));
        }
        assert(moves@.take(i as int) =~= moves@);
        r
    }

    /// All moves that `card` gives the side `curr_player_color`: for each of
    /// its pieces in row-major order, each legal destination in the order of
    /// the card's offsets.
    pub fn generate_possible_moves_for_card(
        &self,
        curr_player_color: &PlayerColor,
        card: &Card,
    ) -> (moves: Vec<Move>)
        ensures
            moves@ == card_moves(self@, *curr_player_color, *card),
            forall|j: int|
                0 <= j < moves@.len() ==> {
                    &&& (#[trigger] moves@[j]).to.on_board()
                    &&& !holds_side(self@, moves@[j].to, *curr_player_color)
                    &&& legal_move(self@, *curr_player_color, *card, moves@[j])
                },
    {
        let color = *curr_player_color;
        let mut moves: Vec<Move> = Vec::new();
        let mut y: u8 = 0;
        while y < 5
            invariant
                y <= 5,
                moves@ == side_moves_upto(self@, color, *card, y * 5),
            decreases 5 - y,
        {
            let mut x: u8 = 0;
            while x < 5
                invariant
                    x <= 5,
                    y < 5,
                    moves@ == side_moves_upto(self@, color, *card, y * 5 + x),
                decreases 5 - x,
            {
                let from = Coordinates { x, y };
                assert(square(y * 5 + x) == from);
                let ghost before = moves@;
                if let Some(piece) = self.piece_at(from) {
                    if piece.color == color {
                        self.push_piece_moves(color, from, card, &mut moves);
                    }
                }
                x += 1;
            }
            y += 1;
        }
        proof {
            lemma_card_moves_legal(self@, color, *card, 25);
        }
        moves
    }

    /// The moves of the side to move, card by card: first those that the
    /// side's first card gives, then those of its second card.
    pub fn generate_all_possible_moves(&self, game_state: &GameState, deck: &Deck) -> (r: Vec<
        PossibleMoves,
    >)
        requires
            deck.wf(),
        ensures
            r@.len() == 2,
            forall|k: int|
                0 <= k < 2 ==> {
                    let slot = DeckModel::first_slot(game_state.curr_color) + k;
                    &&& (#[trigger] r@[k]).card == deck@.slots[slot]
                    &&& r@[k].moves@ == card_moves(
                        self@,
                        game_state.curr_color,
                        deck@.card_in(slot),
                    )
                },
    {
        let cards = deck.get_player_cards(game_state);
        let mut possible_moves: Vec<PossibleMoves> = Vec::with_capacity(2);
        let (first_id, first_card) = cards[0];
        let first_moves = self.generate_possible_moves_for_card(&game_state.curr_color, &first_card);
        possible_moves.push(PossibleMoves { card: first_id, moves: first_moves });
        let (second_id, second_card) = cards[1];
        let second_moves = self.generate_possible_moves_for_card(
            &game_state.curr_color,
            &second_card,
        );
        possible_moves.push(PossibleMoves { card: second_id, moves: second_moves });
        possible_moves
    }

    /// Moves the piece on `start` to `end` and says what the move did. The
    /// square `start` must hold a piece and `end` none of the same side.
    pub fn make_a_move(&mut self, start: Coordinates, end: Coordinates) -> (result: MoveResult)
        requires
            move_allowed(old(self)@, start, end),
        ensures
            final(self)@ == grid_after_move(old(self)@, start, end),
            result == move_outcome(old(self)@, start, end),
            undo_matches(final(self)@, end, start, result, grid_at(old(self)@, end)),
            grid_after_undo(final(self)@, end, start, grid_at(old(self)@, end)) == old(self)@,
    {
        proof {
            lemma_view_wf(*old(self));
            lemma_undo_restores(old(self)@, start, end);
        }
        let start_piece = self.piece_at(start);
        let end_piece = self.piece_at(end);
        self.set_piece(start, None);
        self.set_piece(end, start_piece);
        let mover = start_piece.unwrap();
        if let Some(taken) = end_piece {
            if taken.kind == PieceKind::King {
                return MoveResult::Win;
            }
        }
        if mover.kind == PieceKind::King && end == temple(mover.enemy()) {
            return MoveResult::Win;
        }
        if end_piece.is_some() {
            MoveResult::Capture
        } else {
            MoveResult::Move
        }
    }

    /// Takes back the move that brought a piece from `to` to `from`, given
    /// what that move returned and what stood on `from` before it. The three
    /// must be those of the move that led to this board.
    pub fn undo_move(
        &mut self,
        from: Coordinates,
        to: Coordinates,
        prev_move_result: &MoveResult,
        tile: Tile,
    )
        requires
            from.on_board(),
            to.on_board(),
            undo_matches(old(self)@, from, to, *prev_move_result, tile.piece),
        ensures
            final(self)@ == grid_after_undo(old(self)@, from, to, tile.piece),
            move_allowed(final(self)@, to, from),
            grid_after_move(final(self)@, to, from) == old(self)@,
            move_outcome(final(self)@, to, from) == *prev_move_result,
    {
        let mover = self.piece_at(from);
        self.set_piece(to, mover);
        self.set_piece(from, tile.piece);
    }
}

/// Undo exactness: on a well-formed board, taking back an allowed move with
/// the result it gave and the occupant it displaced is itself allowed, and
/// restores the board as it was before the move.
pub proof fn lemma_undo_restores(g: Grid, from: Coordinates, to: Coordinates)
    requires
        grid_wf(g),
        move_allowed(g, from, to),
    ensures
        undo_matches(
            grid_after_move(g, from, to),
            to,
            from,
            move_outcome(g, from, to),
            grid_at(g, to),
        ),
        grid_after_undo(grid_after_move(g, from, to), to, from, grid_at(g, to)) == g,
{
    let after = grid_after_move(g, from, to);
    let back = grid_after_undo(after, to, from, grid_at(g, to));
    assert(from != to);
    assert(back =~~= g);
    assert(grid_after_move(back, from, to) =~~= after);
}

/// Legality soundness of the moves of one piece: each is the target of one of
/// the first `k` offsets, lies on the board and holds no piece of the side.
pub proof fn lemma_piece_moves_legal(
    g: Grid,
    color: PlayerColor,
    from: Coordinates,
    card: Card,
    k: int,
)
    requires
        0 <= k <= card.directions@.len(),
    ensures
        forall|j: int|
            0 <= j < piece_moves(g, color, from, card, k).len() ==> {
                let m = #[trigger] piece_moves(g, color, from, card, k)[j];
                &&& m.from == from
                &&& m.to.on_board()
                &&& !holds_side(g, m.to, color)
                &&& exists|i: int|
                    0 <= i < k && #[trigger] target_of(from, card, i) == Some(m.to)
            },
    decreases k,
{
    if k > 0 {
        lemma_piece_moves_legal(g, color, from, card, k - 1);
        let prev = piece_moves(g, color, from, card, k - 1);
        let all = piece_moves(g, color, from, card, k);
        assert forall|j: int| 0 <= j < all.len() implies {
            let m = #[trigger] all[j];
            &&& m.from == from
            &&& m.to.on_board()
            &&& !holds_side(g, m.to, color)
            &&& exists|i: int| 0 <= i < k && #[trigger] target_of(from, card, i) == Some(m.to)
        } by {
            let m = all[j];
            if j < prev.len() {
                assert(m == prev[j]);
                let i = choose|i: int|
                    0 <= i < k - 1 && #[trigger] target_of(from, card, i) == Some(m.to);
                assert(0 <= i < k && target_of(from, card, i) == Some(m.to));
            } else {
                assert(target_of(from, card, k - 1) == Some(m.to));
            }
        }
    }
}

/// Legality soundness: every move generated for a card and a side starts on a
/// piece of that side and ends on the board, on a square that holds no piece
/// of that side, reached by one of the card's effective offsets.
pub proof fn lemma_card_moves_legal(g: Grid, color: PlayerColor, card: Card, n: int)
    requires
        0 <= n <= 25,
    ensures
        forall|j: int|
            0 <= j < side_moves_upto(g, color, card, n).len() ==> {
                let m = #[trigger] side_moves_upto(g, color, card, n)[j];
                &&& m.to.on_board()
                &&& !holds_side(g, m.to, color)
                &&& legal_move(g, color, card, m)
            },
    decreases n,
{
    if n > 0 {
        lemma_card_moves_legal(g, color, card, n - 1);
        let from = square(n - 1);
        let len = card.directions@.len() as int;
        lemma_piece_moves_legal(g, color, from, card, len);
        let prev = side_moves_upto(g, color, card, n - 1);
        let all = side_moves_upto(g, color, card, n);
        assert forall|j: int| 0 <= j < all.len() implies {
            let m = #[trigger] all[j];
            &&& m.to.on_board()
            &&& !holds_side(g, m.to, color)
            &&& legal_move(g, color, card, m)
        } by {
            let m = all[j];
            if j < prev.len() {
                assert(m == prev[j]);
            } else {
                let own = piece_moves(g, color, from, card, len);
                assert(m == own[j - prev.len()]);
                let i = choose|i: int|
                    0 <= i < len && #[trigger] target_of(from, card, i) == Some(m.to);
                assert(0 <= i < card.directions@.len() && target_of(m.from, card, i) == Some(m.to));
            }
        }
    }
}

/// Every destination that one of the first `k` offsets allows is among the
/// moves generated for the piece.
pub proof fn lemma_piece_moves_complete(
    g: Grid,
    color: PlayerColor,
    from: Coordinates,
    card: Card,
    k: int,
    i: int,
)
    requires
        0 <= i < k,
        step_allowed(g, color, from, card, i),
    ensures
        piece_moves(g, color, from, card, k).contains(
            Move { from, to: target_of(from, card, i)->Some_0 },
        ),
    decreases k,
{
    let wanted = Move { from, to: target_of(from, card, i)->Some_0 };
    let all = piece_moves(g, color, from, card, k);
    if i == k - 1 {
        assert(all[all.len() - 1] == wanted);
    } else {
        lemma_piece_moves_complete(g, color, from, card, k - 1, i);
        let prev = piece_moves(g, color, from, card, k - 1);
        let j = choose|j: int| 0 <= j < prev.len() && prev[j] == wanted;
        assert(all[j] == wanted);
    }
}

/// The moves generated for the first `n` squares stay among those generated
/// for more squares.
pub proof fn lemma_side_moves_grow(
    g: Grid,
    color: PlayerColor,
    card: Card,
    n: int,
    m: int,
    wanted: Move,
)
    requires
        0 <= n <= m,
        side_moves_upto(g, color, card, n).contains(wanted),
    ensures
        side_moves_upto(g, color, card, m).contains(wanted),
    decreases m - n,
{
    if n < m {
        lemma_side_moves_grow(g, color, card, n, m - 1, wanted);
        let prev = side_moves_upto(g, color, card, m - 1);
        let all = side_moves_upto(g, color, card, m);
        let j = choose|j: int| 0 <= j < prev.len() && prev[j] == wanted;
        assert(all[j] == wanted);
    }
}

/// Legality completeness: every move that a card gives a side is among the
/// moves generated for the card and the side.
pub proof fn lemma_card_moves_complete(g: Grid, color: PlayerColor, card: Card, m: Move)
    requires
        legal_move(g, color, card, m),
    ensures
        card_moves(g, color, card).contains(m),
{
    let i = choose|i: int|
        0 <= i < card.directions@.len() && #[trigger] target_of(m.from, card, i) == Some(m.to)
            && !holds_side(g, m.to, color);
    let len = card.directions@.len() as int;
    let n = m.from.rank() + 1;
    assert(square(n - 1) == m.from);
    lemma_piece_moves_complete(g, color, m.from, card, len, i);
    let own = piece_moves(g, color, m.from, card, len);
    let prev = side_moves_upto(g, color, card, n - 1);
    let upto = side_moves_upto(g, color, card, n);
    let j = choose|j: int| 0 <= j < own.len() && own[j] == m;
    assert(upto[prev.len() + j] == m);
    lemma_side_moves_grow(g, color, card, n, 25, m);
}

/// A generated move may be made: its origin holds a piece of the side, and
/// its destination lies on the board and holds no piece of that side.
pub proof fn lemma_legal_move_allowed(g: Grid, color: PlayerColor, card: Card, m: Move)
    requires
        legal_move(g, color, card, m),
    ensures
        move_allowed(g, m.from, m.to),
        grid_at(g, m.from)->Some_0.color == color,
{
}

/// The text of the first `n` squares of a row depends on those squares only.
pub proof fn lemma_row_text_prefix(a: Seq<Seq<char>>, b: Seq<Seq<char>>, n: int)
    requires
        0 <= n <= a.len(),
        n <= b.len(),
        forall|k: int| 0 <= k < n ==> a[k] == b[k],
    ensures
        row_text(a, n) == row_text(b, n),
    decreases n,
{
    if n > 0 {
        lemma_row_text_prefix(a, b, n - 1);
    }
}

/// The lines of the topmost `n` rows depend on those rows only.
pub proof fn lemma_rows_text_prefix(a: Seq<Seq<Seq<char>>>, b: Seq<Seq<Seq<char>>>, n: int)
    requires
        0 <= n <= 5,
        a.len() == 5,
        b.len() == 5,
        forall|y: int| 5 - n <= y < 5 ==> a[y] == b[y],
    ensures
        rows_text(a, n) == rows_text(b, n),
    decreases n,
{
    if n > 0 {
        lemma_rows_text_prefix(a, b, n - 1);
    }
}

/// Replacing the occupant of one square changes the number of leaders by
/// what the square held and holds.
pub proof fn lemma_put_changes_leaders(
    g: Grid,
    c: Coordinates,
    p: Option<Piece>,
    color: PlayerColor,
    n: int,
)
    requires
        grid_wf(g),
        c.on_board(),
        0 <= n <= 25,
    ensures
        leaders_upto(grid_put(g, c, p), color, n) == leaders_upto(g, color, n) + if c.rank() < n {
            leader_here(p, color) - leader_here(grid_at(g, c), color)
        } else {
            0
        },
    decreases n,
{
    if n > 0 {
        lemma_put_changes_leaders(g, c, p, color, n - 1);
        let here = square(n - 1);
        if here == c {
            assert(c.rank() == n - 1);
        } else {
            assert(c.rank() != n - 1);
            assert(grid_at(grid_put(g, c, p), here) == grid_at(g, here));
        }
    }
}

/// The board invariant: a move gives no side a leader more. The side that
/// moves keeps the number it has, and the other side loses the leader that
/// the move takes.
pub proof fn lemma_move_keeps_leaders(
    g: Grid,
    from: Coordinates,
    to: Coordinates,
    color: PlayerColor,
)
    requires
        grid_wf(g),
        move_allowed(g, from, to),
    ensures
        leaders(grid_after_move(g, from, to), color) == leaders(g, color) - leader_here(
            grid_at(g, to),
            color,
        ),
        leaders(grid_after_move(g, from, to), color) <= leaders(g, color),
        color == grid_at(g, from)->Some_0.color ==> leaders(grid_after_move(g, from, to), color)
            == leaders(g, color),
{
    let lifted = grid_put(g, from, None);
    lemma_put_changes_leaders(g, from, None, color, 25);
    lemma_put_changes_leaders(lifted, to, grid_at(g, from), color, 25);
    assert(from != to);
    assert(grid_at(lifted, to) == grid_at(g, to));
}

/// Each side starts with exactly one leader.
pub proof fn lemma_initial_leaders(color: PlayerColor)
    ensures
        leaders(initial_grid(), color) == 1,
{
    reveal_with_fuel(leaders_upto, 26);
    let g = initial_grid();
    assert forall|k: int| 0 <= k < 25 implies grid_at(g, #[trigger] square(k)) == initial_piece(
        k % 5,
        k / 5,
    ) by {}
}

/// A move keeps the board well formed.
pub proof fn lemma_move_keeps_wf(g: Grid, from: Coordinates, to: Coordinates)
    requires
        grid_wf(g),
        from.on_board(),
        to.on_board(),
    ensures
        grid_wf(grid_after_move(g, from, to)),
{
}

/// The number of leaders among the first `n` squares lies between 0 and `n`.
pub proof fn lemma_leaders_range(g: Grid, color: PlayerColor, n: int)
    requires
        0 <= n,
    ensures
        0 <= leaders_upto(g, color, n) <= n,
    decreases n,
{
    if n > 0 {
        lemma_leaders_range(g, color, n - 1);
    }
}

/// A tile map is what its model shows: two tile maps with the same model
/// are the same, square by square.
pub proof fn lemma_same_view_same_map(a: TileMap, b: TileMap)
    requires
        a@ == b@,
    ensures
        a == b,
{
    assert forall|y: int| 0 <= y < 5 implies a.map[y] == b.map[y] by {
        assert forall|x: int| 0 <= x < 5 implies a.map[y][x] == b.map[y][x] by {
            assert(a@[y][x] == b@[y][x]);
        }
        assert(a.map[y] =~= b.map[y]);
    }
    assert(a.map =~= b.map);
}

/// The board model of every tile map is well formed.
pub proof fn lemma_view_wf(board: TileMap)
    ensures
        grid_wf(board@),
{
}

} // verus!
