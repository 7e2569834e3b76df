use onitama::agent::Agent;
use onitama::alpha_beta::{AlphaBetaAgent, CalculationResult};
use onitama::card::Card;
use onitama::coordinates::Coordinates;
use onitama::deck::{CardId, Deck};
use onitama::evaluation::{Evaluation, EvaluationResult};
use onitama::game_state::{GameState, Player};
use onitama::human::Human;
use onitama::pieces::{Piece, PieceKind};
use onitama::player::{PlayerColor, PlayerType};
use onitama::random_agent::RandomAgent;
use onitama::tile::Tile;
use onitama::tile_map::{Move, MoveResult, TileMap};

fn at(x: u8, y: u8) -> Coordinates {
    Coordinates { x, y }
}

fn empty_board() -> TileMap {
    TileMap { map: [[Tile::new(None); 5]; 5] }
}

fn put(board: &mut TileMap, x: u8, y: u8, color: PlayerColor, kind: PieceKind) {
    board.set_piece(at(x, y), Some(Piece::new(kind, color)));
}

fn human() -> Player {
    Player { agent: Agent::Human(Human), player_type: PlayerType::Human }
}

fn deck_of(indices: [u8; 5]) -> Deck {
    let ids: Vec<CardId> = (0..5u64).map(|i| CardId(10 + i)).collect();
    let cards: Vec<Card> = indices.iter().map(|i| Card::from_catalog(*i)).collect();
    Deck::new(&ids, &cards).unwrap()
}

fn state_for(color: PlayerColor) -> GameState {
    let mut state = GameState::new(human(), human());
    if color == PlayerColor::Blue {
        state.next_turn();
    }
    state
}

/// Plain minimax without pruning, written against the public rules only.
fn minimax(
    depth: u8,
    board: &mut TileMap,
    state: &mut GameState,
    deck: &mut Deck,
    last: Option<MoveResult>,
) -> i32 {
    let color = state.curr_color;
    if depth == 0 || last == Some(MoveResult::Win) {
        return Evaluation::evaluate(board, &color, &last);
    }
    let first = if color == PlayerColor::Blue { 0 } else { 3 };
    let cards = deck.get_player_cards(state);
    let mut best: Option<i32> = None;
    for (k, (_, card)) in cards.iter().enumerate() {
        for mov in board.generate_possible_moves_for_card(&color, card) {
            let captured = Tile::new(board.piece_at(mov.to));
            let result = board.make_a_move(mov.from, mov.to);
            state.next_turn();
            deck.swap_card_with_neutral(first + k);
            let score = minimax(depth - 1, board, state, deck, Some(result));
            deck.swap_card_with_neutral(first + k);
            state.undo_next_turn();
            board.undo_move(mov.to, mov.from, &result, captured);
            best = Some(match best {
                None => score,
                Some(b) if color == PlayerColor::Red => b.max(score),
                Some(b) => b.min(score),
            });
        }
    }
    match best {
        Some(score) => score,
        None => Evaluation::evaluate(board, &color, &last),
    }
}

fn skirmish() -> TileMap {
    let mut board = empty_board();
    put(&mut board, 2, 0, PlayerColor::Red, PieceKind::King);
    put(&mut board, 1, 1, PlayerColor::Red, PieceKind::Pawn);
    put(&mut board, 3, 2, PlayerColor::Red, PieceKind::Pawn);
    put(&mut board, 2, 4, PlayerColor::Blue, PieceKind::King);
    put(&mut board, 1, 3, PlayerColor::Blue, PieceKind::Pawn);
    put(&mut board, 3, 3, PlayerColor::Blue, PieceKind::Pawn);
    board
}

fn endgame() -> TileMap {
    let mut board = empty_board();
    put(&mut board, 1, 1, PlayerColor::Red, PieceKind::King);
    put(&mut board, 3, 1, PlayerColor::Red, PieceKind::Pawn);
    put(&mut board, 3, 3, PlayerColor::Blue, PieceKind::King);
    put(&mut board, 0, 3, PlayerColor::Blue, PieceKind::Pawn);
    board
}

#[test]
fn evaluation_of_the_initial_formation_is_balanced() {
    let board = TileMap::new();
    assert_eq!(Evaluation::evaluate(&board, &PlayerColor::Red, &None), 0);
    assert_eq!(Evaluation::evaluate(&board, &PlayerColor::Blue, &None), 0);
    assert_eq!(Evaluation::evaluate(&board, &PlayerColor::Red, &Some(MoveResult::Move)), 0);
}

#[test]
fn evaluation_of_a_win_is_the_sentinel_for_the_side_that_moved() {
    let board = TileMap::new();
    let won = Some(MoveResult::Win);
    assert_eq!(Evaluation::evaluate(&board, &PlayerColor::Blue, &won), 10000);
    assert_eq!(Evaluation::evaluate(&board, &PlayerColor::Red, &won), -10000);
}

#[test]
fn evaluation_adds_up_material_distances_and_position() {
    let mut board = empty_board();
    put(&mut board, 2, 1, PlayerColor::Red, PieceKind::King);
    put(&mut board, 0, 0, PlayerColor::Red, PieceKind::Pawn);
    put(&mut board, 3, 4, PlayerColor::Blue, PieceKind::King);
    // material: 10010 against 10000; leaders to the opposing temples: Blue's
    // is 5 away and Red's 3; distances to the opposing leader: Blue's pieces
    // are 4 from Red's leader, Red's are 4 and 7 from Blue's; bonus: 12 + 0
    // against 4.
    let expected = (10010 - 10000) - (5 - 3) + (4 - (4 + 7)) + (12 - 4);
    assert_eq!(expected, 9);
    assert_eq!(Evaluation::evaluate(&board, &PlayerColor::Red, &None), 9);
    assert_eq!(Evaluation::evaluate(&board, &PlayerColor::Blue, &None), 9);
    assert_eq!(Evaluation::evaluate(&board, &PlayerColor::Blue, &Some(MoveResult::Capture)), 9);
}

#[test]
fn evaluation_measures_against_the_temple_when_a_leader_is_gone() {
    let mut board = empty_board();
    put(&mut board, 1, 1, PlayerColor::Red, PieceKind::Pawn);
    put(&mut board, 2, 2, PlayerColor::Blue, PieceKind::King);
    // Red has no leader: Blue's pieces are measured against Red's temple.
    let expected = (10 - 10000) - (2 - 0) + (2 - 2) + (8 - 16);
    assert_eq!(Evaluation::evaluate(&board, &PlayerColor::Red, &None), expected);
}

#[test]
fn material_dominates_the_evaluation() {
    let mut board = TileMap::new();
    board.set_piece(at(0, 4), None);
    assert!(Evaluation::evaluate(&board, &PlayerColor::Red, &None) > 0);
    let mut board = TileMap::new();
    board.set_piece(at(0, 0), None);
    assert!(Evaluation::evaluate(&board, &PlayerColor::Red, &None) < 0);
}

#[test]
fn manhattan_distance_and_piece_square_values() {
    assert_eq!(Evaluation::manhattan_distance(at(0, 0), at(4, 4)), 8);
    assert_eq!(Evaluation::manhattan_distance(at(3, 1), at(1, 2)), 3);
    assert_eq!(Evaluation::manhattan_distance(at(2, 2), at(2, 2)), 0);
    assert_eq!(Evaluation::piece_square(at(2, 2)), 16);
    assert_eq!(Evaluation::piece_square(at(0, 0)), 0);
    assert_eq!(Evaluation::piece_square(at(1, 3)), 8);
    assert_eq!(Evaluation::piece_square(at(4, 2)), 8);
}

#[test]
fn evaluation_result_prints_its_score() {
    assert_eq!(EvaluationResult::default().score, 0);
    assert_eq!(EvaluationResult { score: -42 }.to_string(), "Evaluation result: -42");
}

#[test]
fn search_at_depth_one_equals_the_best_static_evaluation() {
    let board = TileMap::new();
    let state = state_for(PlayerColor::Red);
    let deck = deck_of([0, 1, 2, 3, 4]);
    let cards = deck.get_player_cards(&state);
    let mut best = i32::MIN;
    for (_, card) in cards.iter() {
        for mov in board.generate_possible_moves_for_card(&PlayerColor::Red, card) {
            let mut after = board;
            let result = after.make_a_move(mov.from, mov.to);
            best = best.max(Evaluation::evaluate(&after, &PlayerColor::Blue, &Some(result)));
        }
    }
    let (card, mov, score) = AlphaBetaAgent::new(1).generate_move(&board, &state, &deck);
    assert_eq!(score, best);
    assert!(card.is_some() && mov.is_some());
}

#[test]
fn search_is_deterministic_and_leaves_its_inputs_alone() {
    let board = skirmish();
    let state = state_for(PlayerColor::Blue);
    let deck = deck_of([2, 7, 5, 9, 13]);
    let agent = AlphaBetaAgent::new(3);
    let first = agent.generate_move(&board, &state, &deck);
    let second = agent.generate_move(&board, &state, &deck);
    assert_eq!(first, second);
    assert_eq!(board.map, skirmish().map);
    assert_eq!((state.turn, state.curr_color), (1, PlayerColor::Blue));
    assert_eq!(deck.cards, (0..5u64).map(|i| CardId(10 + i)).collect::<Vec<_>>());
}

#[test]
fn in_place_search_restores_board_turn_and_deck() {
    let mut board = skirmish();
    let mut state = state_for(PlayerColor::Red);
    let mut deck = deck_of([2, 7, 5, 9, 13]);
    let agent = AlphaBetaAgent::new(3);
    let found =
        agent.alpha_beta(0, i32::MIN, i32::MAX, &mut board, &mut state, &mut deck, None);
    assert_eq!(board.map, skirmish().map);
    assert_eq!((state.turn, state.curr_color, state.current_player_idx), (0, PlayerColor::Red, 0));
    assert_eq!(deck.cards, (0..5u64).map(|i| CardId(10 + i)).collect::<Vec<_>>());
    let blue_cards = deck.get_player_cards(&state_for(PlayerColor::Blue));
    assert!(blue_cards.iter().all(|(_, c)| c.is_mirrored));
    let red_cards = deck.get_player_cards(&state);
    assert!(red_cards.iter().all(|(_, c)| !c.is_mirrored));
    let copy = agent.generate_move(&board, &state, &deck);
    assert_eq!(copy, (found.best_card, found.best_move, found.best_score));
}

#[test]
fn pruned_search_scores_like_plain_minimax() {
    let positions = [
        (skirmish(), [2u8, 7, 5, 9, 13]),
        (endgame(), [0, 1, 2, 3, 4]),
        (endgame(), [10, 14, 6, 11, 8]),
        (TileMap::new(), [0, 1, 2, 3, 4]),
        (skirmish(), [15, 12, 4, 3, 1]),
    ];
    for (board, cards) in positions {
        for color in [PlayerColor::Red, PlayerColor::Blue] {
            for depth in 0..=3u8 {
                let deck = deck_of(cards);
                let state = state_for(color);
                let (_, _, score) = AlphaBetaAgent::new(depth).generate_move(&board, &state, &deck);
                let mut b = board;
                let mut s = state;
                let mut d = deck.clone();
                assert_eq!(score, minimax(depth, &mut b, &mut s, &mut d, None));
            }
        }
    }
}

#[test]
fn chosen_move_is_the_first_that_leads_to_the_minimax_value() {
    let positions = [(skirmish(), [2u8, 7, 5, 9, 13]), (endgame(), [10, 14, 6, 11, 8])];
    for (board, cards) in positions {
        for color in [PlayerColor::Red, PlayerColor::Blue] {
            for depth in 1..=3u8 {
                let deck = deck_of(cards);
                let state = state_for(color);
                let (card, mov, score) =
                    AlphaBetaAgent::new(depth).generate_move(&board, &state, &deck);
                let mut first = None;
                for c in AlphaBetaAgent::candidates(&board, &state, &deck) {
                    let mut b = board;
                    let mut s = state;
                    let mut d = deck.clone();
                    let result = b.make_a_move(c.mov.from, c.mov.to);
                    s.next_turn();
                    d.swap_card_with_neutral(c.slot);
                    let value = minimax(depth - 1, &mut b, &mut s, &mut d, Some(result));
                    if value == score && first.is_none() {
                        first = Some((Some(c.card), Some(c.mov)));
                    }
                }
                assert_eq!(first, Some((card, mov)));
            }
        }
    }
}

#[test]
fn search_takes_the_temple_when_the_leader_can_reach_it() {
    let mut board = empty_board();
    put(&mut board, 2, 3, PlayerColor::Red, PieceKind::King);
    put(&mut board, 0, 0, PlayerColor::Red, PieceKind::Pawn);
    put(&mut board, 4, 4, PlayerColor::Blue, PieceKind::King);
    put(&mut board, 4, 0, PlayerColor::Blue, PieceKind::Pawn);
    // Red holds Boar, whose first offset is one step up the board.
    let deck = deck_of([0, 1, 2, 7, 4]);
    let state = state_for(PlayerColor::Red);
    let mut probe = board;
    assert_eq!(probe.make_a_move(at(2, 3), at(2, 4)), MoveResult::Win);
    for depth in 1..=4u8 {
        let (card, mov, score) = AlphaBetaAgent::new(depth).generate_move(&board, &state, &deck);
        assert_eq!(mov, Some(Move { from: at(2, 3), to: at(2, 4) }));
        assert_eq!(card, Some(CardId(13)));
        assert_eq!(score, 10000);
    }
}

#[test]
fn blue_minimises_and_takes_the_leader_when_it_can() {
    let mut board = empty_board();
    put(&mut board, 2, 2, PlayerColor::Red, PieceKind::King);
    put(&mut board, 2, 3, PlayerColor::Blue, PieceKind::Pawn);
    put(&mut board, 4, 4, PlayerColor::Blue, PieceKind::King);
    // Blue holds Boar mirrored: its first offset leads one step down.
    let deck = deck_of([7, 1, 2, 3, 4]);
    let state = state_for(PlayerColor::Blue);
    for depth in 1..=3u8 {
        let (card, mov, score) = AlphaBetaAgent::new(depth).generate_move(&board, &state, &deck);
        assert_eq!(mov, Some(Move { from: at(2, 3), to: at(2, 2) }));
        assert_eq!(card, Some(CardId(10)));
        assert_eq!(score, -10000);
    }
}

#[test]
fn first_move_with_the_best_score_is_kept() {
    let board = TileMap::new();
    let state = state_for(PlayerColor::Red);
    let deck = deck_of([0, 1, 2, 3, 4]);
    let (card, mov, score) = AlphaBetaAgent::new(1).generate_move(&board, &state, &deck);
    let cards = deck.get_player_cards(&state);
    let mut first_best = None;
    for (id, c) in cards.iter() {
        for m in board.generate_possible_moves_for_card(&PlayerColor::Red, c) {
            let mut after = board;
            let result = after.make_a_move(m.from, m.to);
            let s = Evaluation::evaluate(&after, &PlayerColor::Blue, &Some(result));
            if s == score && first_best.is_none() {
                first_best = Some((*id, m));
            }
        }
    }
    assert_eq!(first_best, Some((card.unwrap(), mov.unwrap())));
}

#[test]
fn depth_zero_and_finished_games_give_the_evaluation_without_a_move() {
    let board = skirmish();
    let state = state_for(PlayerColor::Red);
    let deck = deck_of([0, 1, 2, 3, 4]);
    let expected = Evaluation::evaluate(&board, &PlayerColor::Red, &None);
    assert_eq!(AlphaBetaAgent::new(0).generate_move(&board, &state, &deck), (None, None, expected));
    let mut b = board;
    let mut s = state;
    let mut d = deck.clone();
    let found = AlphaBetaAgent::new(3).alpha_beta(
        0,
        i32::MIN,
        i32::MAX,
        &mut b,
        &mut s,
        &mut d,
        Some(MoveResult::Win),
    );
    assert_eq!(
        found,
        CalculationResult { best_move: None, best_card: None, best_score: -10000 }
    );
}

#[test]
fn side_without_a_legal_move_gets_the_static_evaluation() {
    let mut board = empty_board();
    put(&mut board, 0, 4, PlayerColor::Red, PieceKind::King);
    put(&mut board, 4, 0, PlayerColor::Blue, PieceKind::King);
    // Red holds Tiger twice over the catalog: both of its cards lead off the
    // board from the top-left corner.
    let ids: Vec<CardId> = (0..5u64).map(CardId).collect();
    let up = Card::new(onitama::card::Edition::SenseisPath, &[(0, 1), (-1, 0)], "Up");
    let left = Card::new(onitama::card::Edition::SenseisPath, &[(-1, 1), (-2, 0)], "Left");
    let cards = vec![
        Card::from_catalog(0),
        Card::from_catalog(1),
        Card::from_catalog(2),
        up,
        left,
    ];
    let deck = Deck::new(&ids, &cards).unwrap();
    let state = state_for(PlayerColor::Red);
    let expected = Evaluation::evaluate(&board, &PlayerColor::Red, &None);
    assert_eq!(AlphaBetaAgent::new(2).generate_move(&board, &state, &deck), (None, None, expected));
    assert_eq!(RandomAgent.generate_move(&board, &state, &deck), (None, None, 0));
}

#[test]
fn random_agent_returns_a_legal_move_of_one_of_the_two_cards() {
    let board = TileMap::new();
    let deck = deck_of([0, 1, 2, 3, 4]);
    for color in [PlayerColor::Red, PlayerColor::Blue] {
        let state = state_for(color);
        let cards = deck.get_player_cards(&state);
        let mut seen: Vec<(CardId, Move)> = Vec::new();
        for _ in 0..200 {
            let (card, mov, score) = RandomAgent.generate_move(&board, &state, &deck);
            assert_eq!(score, 0);
            let (card, mov) = (card.unwrap(), mov.unwrap());
            let (_, played) = cards.iter().find(|(id, _)| *id == card).unwrap();
            assert!(board.generate_possible_moves_for_card(&color, played).contains(&mov));
            if !seen.contains(&(card, mov)) {
                seen.push((card, mov));
            }
        }
        assert!(seen.len() > 1);
    }
}

#[test]
fn random_pick_reads_the_drawn_card_and_move() {
    let board = TileMap::new();
    let deck = deck_of([0, 1, 2, 3, 4]);
    let state = state_for(PlayerColor::Red);
    let all = board.generate_all_possible_moves(&state, &deck);
    assert_eq!(all.len(), 2);
    assert_eq!(all[0].card, CardId(13));
    assert_eq!(all[1].card, CardId(14));
    assert_eq!(
        RandomAgent::pick(&all, 1, 2),
        (Some(CardId(14)), Some(all[1].moves[2]), 0)
    );
    assert_eq!(RandomAgent::pick(&all, 0, 0), (Some(CardId(13)), Some(all[0].moves[0]), 0));
    assert_eq!(RandomAgent::pick(&all, 2, 0), (None, None, 0));
    assert_eq!(RandomAgent::pick(&all, 0, all[0].moves.len()), (None, None, 0));
}

#[test]
fn agents_are_asked_through_their_kind() {
    let board = skirmish();
    let deck = deck_of([2, 7, 5, 9, 13]);
    let state = state_for(PlayerColor::Red);
    let search = Agent::AlphaBeta(AlphaBetaAgent::new(2));
    assert_eq!(
        search.generate_move(&board, &state, &deck),
        AlphaBetaAgent::new(2).generate_move(&board, &state, &deck)
    );
    let (card, mov, score) = Agent::Random(RandomAgent).generate_move(&board, &state, &deck);
    assert!(card.is_some() && mov.is_some());
    assert_eq!(score, 0);
}

#[test]
fn candidates_list_the_first_card_before_the_second() {
    let board = TileMap::new();
    let deck = deck_of([0, 1, 2, 3, 4]);
    let state = state_for(PlayerColor::Blue);
    let all = AlphaBetaAgent::candidates(&board, &state, &deck);
    let first: Vec<_> = all.iter().take_while(|c| c.slot == 0).collect();
    assert_eq!(first.len(), 5);
    assert!(first.iter().all(|c| c.card == CardId(10)));
    assert!(all[5..].iter().all(|c| c.slot == 1 && c.card == CardId(11)));
    assert_eq!(all[0].mov, Move { from: at(0, 4), to: at(0, 2) });
}
