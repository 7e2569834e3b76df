use onitama::board_input::{process_selected_tile, TileAction};
use onitama::card::{Card, Edition};
use onitama::card_input::{card_selection_handling, CardAction};
use onitama::coordinates::Coordinates;
use onitama::deck::{CardId, Deck};
use onitama::agent::Agent;
use onitama::alpha_beta::AlphaBetaAgent;
use onitama::game_state::{GameState, Player};
use onitama::game_state_process::{name_of, next_turn_event, process_win_condition, turn_process};
use onitama::human::Human;
use onitama::physical_deck::PhysicalDeck;
use onitama::pieces::{Piece, PieceKind};
use onitama::player::{PlayerColor, PlayerType};
use onitama::random_agent::RandomAgent;
use onitama::tile::Tile;
use onitama::tile_map::{MoveResult, TileMap};

fn at(x: u8, y: u8) -> Coordinates {
    Coordinates { x, y }
}

fn human() -> Player {
    Player { agent: Agent::Human(Human), player_type: PlayerType::Human }
}

fn deck_of(indices: [u8; 5]) -> Deck {
    let ids: Vec<CardId> = (0..5u64).map(|i| CardId(20 + i)).collect();
    let cards: Vec<Card> = indices.iter().map(|i| Card::from_catalog(*i)).collect();
    Deck::new(&ids, &cards).unwrap()
}

fn strip_colours(text: &str) -> String {
    let mut plain = String::new();
    let mut chars = text.chars();
    while let Some(c) = chars.next() {
        if c == '\u{1b}' {
            for d in chars.by_ref() {
                if d == 'm' {
                    break;
                }
            }
        } else {
            plain.push(c);
        }
    }
    plain
}

#[test]
fn tile_shows_its_piece_as_one_letter() {
    let cases = [
        (Some(Piece::new(PieceKind::King, PlayerColor::Blue)), "B", "36"),
        (Some(Piece::new(PieceKind::Pawn, PlayerColor::Blue)), "b", "36"),
        (Some(Piece::new(PieceKind::King, PlayerColor::Red)), "R", "91"),
        (Some(Piece::new(PieceKind::Pawn, PlayerColor::Red)), "r", "91"),
    ];
    for (piece, letter, code) in cases {
        let shown = Tile::new(piece).console_output();
        let coloured = format!("\u{1b}[{}m{}\u{1b}[0m", code, letter);
        assert!(shown == letter || shown == coloured);
    }
    assert_eq!(Tile::new(None).console_output(), " ");
}

#[test]
fn board_picture_shows_the_top_row_first() {
    let picture = strip_colours(&TileMap::new().console_output());
    let expected = "Board (5, 5):\n-------\n|bbBbb|\n|     |\n|     |\n|     |\n|rrRrr|\n-------";
    assert_eq!(picture, expected);
    let mut board = TileMap::new();
    board.make_a_move(at(1, 0), at(1, 2));
    let picture = strip_colours(&board.console_output());
    let expected = "Board (5, 5):\n-------\n|bbBbb|\n|     |\n| r   |\n|     |\n|r Rrr|\n-------";
    assert_eq!(picture, expected);
}

#[test]
fn random_cards_are_five_different_catalog_cards() {
    for _ in 0..50 {
        let mut deck = PhysicalDeck::new();
        deck.take_random_cards();
        assert_eq!(deck.cards.len(), 5);
        for (i, a) in deck.cards.iter().enumerate() {
            assert!(!a.is_mirrored);
            assert!((0..16u8).any(|k| Card::from_catalog(k).is_same_entry(a)));
            for b in deck.cards.iter().skip(i + 1) {
                assert!(!a.is_same_entry(b));
            }
        }
        let ids: Vec<CardId> = (0..5u64).map(CardId).collect();
        assert!(Deck::new(&ids, &deck.cards).is_some());
    }
}

#[test]
fn some_random_cards_keep_the_named_ones_last() {
    for _ in 0..50 {
        let mut deck = PhysicalDeck::new();
        deck.take_some_random_cards(&vec![3, 9]);
        assert_eq!(deck.cards.len(), 5);
        assert_eq!(deck.cards[4].name, "Crane");
        assert_eq!(deck.cards[3].name, "Goose");
        for (i, a) in deck.cards.iter().enumerate() {
            for b in deck.cards.iter().skip(i + 1) {
                assert!(!a.is_same_entry(b));
            }
        }
    }
    let mut deck = PhysicalDeck::new();
    deck.take_some_random_cards(&vec![4, 3, 2, 1, 0]);
    let names: Vec<&str> = deck.cards.iter().map(|c| c.name).collect();
    assert_eq!(names, vec!["Tiger", "Crab", "Monkey", "Crane", "Dragon"]);
}

#[test]
fn nth_unused_counts_over_the_chosen_indices() {
    let chosen = vec![0u8, 2, 3, 15];
    assert_eq!(PhysicalDeck::nth_unused(&chosen, 0), Some(1));
    assert_eq!(PhysicalDeck::nth_unused(&chosen, 1), Some(4));
    assert_eq!(PhysicalDeck::nth_unused(&chosen, 11), Some(14));
    assert_eq!(PhysicalDeck::nth_unused(&chosen, 12), None);
    assert_eq!(PhysicalDeck::nth_unused(&vec![], 15), Some(15));
    assert_eq!(PhysicalDeck::nth_unused(&vec![7, 7, 7], 7), Some(8));
}

#[test]
fn same_entry_ignores_the_orientation_only() {
    let tiger = Card::from_catalog(0);
    let mut mirrored = tiger;
    mirrored.is_mirrored = true;
    assert!(tiger.is_same_entry(&mirrored));
    assert!(!tiger.is_same_entry(&Card::from_catalog(1)));
    let renamed = Card::new(Edition::Original, &[(0, 2), (0, -1)], "Lion");
    assert!(!tiger.is_same_entry(&renamed));
    let reprint = Card::new(Edition::SenseisPath, &[(0, 2), (0, -1)], "Tiger");
    assert!(!tiger.is_same_entry(&reprint));
    let shorter = Card::new(Edition::Original, &[(0, 2)], "Tiger");
    assert!(!tiger.is_same_entry(&shorter));
    assert_eq!(mirrored.direction(1), (0, 1));
    assert_eq!(tiger.direction(1), (0, -1));
}

#[test]
fn deck_rejects_the_same_catalog_entry_twice() {
    let ids: Vec<CardId> = (0..5u64).map(CardId).collect();
    let cards: Vec<Card> = [0u8, 1, 2, 1, 4].iter().map(|i| Card::from_catalog(*i)).collect();
    assert!(Deck::new(&ids, &cards).is_none());
}

#[test]
fn slot_of_finds_a_card_after_rotations() {
    let mut deck = deck_of([0, 1, 2, 3, 4]);
    assert_eq!(deck.slot_of(CardId(22)), Some(2));
    deck.swap_card_with_neutral(4);
    assert_eq!(deck.slot_of(CardId(22)), Some(4));
    assert_eq!(deck.slot_of(CardId(24)), Some(2));
    assert_eq!(deck.slot_of(CardId(99)), None);
}

#[test]
fn win_and_ply_limit_end_the_match() {
    let mut state = GameState::new(human(), human());
    assert!(process_win_condition(MoveResult::Move, &state).is_empty());
    assert!(process_win_condition(MoveResult::Capture, &state).is_empty());
    assert_eq!(process_win_condition(MoveResult::Win, &state), vec!["Red has won!"]);
    state.next_turn();
    assert_eq!(process_win_condition(MoveResult::Win, &state), vec!["Blue has won!"]);
    state.turn = 200;
    assert!(process_win_condition(MoveResult::Move, &state).is_empty());
    state.turn = 201;
    assert_eq!(process_win_condition(MoveResult::Move, &state), vec!["It is a tie!"]);
    assert_eq!(
        process_win_condition(MoveResult::Win, &state),
        vec!["Blue has won!", "It is a tie!"]
    );
}

#[test]
fn next_turn_names_the_side_to_move() {
    let mut state = GameState::new(human(), human());
    assert_eq!(next_turn_event(&mut state), "Blue to move. Select a card.");
    assert_eq!((state.turn, state.curr_color), (1, PlayerColor::Blue));
    assert_eq!(next_turn_event(&mut state), "Red to move. Select a card.");
    assert_eq!(name_of(PlayerColor::Red), "Red");
    assert_eq!(name_of(PlayerColor::Blue), "Blue");
}

#[test]
fn only_agents_are_asked_for_moves() {
    let search = Player {
        agent: Agent::AlphaBeta(AlphaBetaAgent::new(2)),
        player_type: PlayerType::AlphaBeta,
    };
    let random = Player { agent: Agent::Random(RandomAgent), player_type: PlayerType::Random };
    let mut state = GameState::new(human(), search);
    assert!(!turn_process(&state));
    state.next_turn();
    assert!(turn_process(&state));
    let state = GameState::new(random, human());
    assert!(turn_process(&state));
}

#[test]
fn clicks_on_the_board_select_and_move() {
    let board = TileMap::new();
    let red = PlayerColor::Red;
    let none: Vec<Coordinates> = vec![];
    assert_eq!(
        process_selected_tile(&board, red, false, None, &none, at(0, 0)),
        TileAction::AskForCard
    );
    assert_eq!(
        process_selected_tile(&board, red, true, None, &none, at(0, 0)),
        TileAction::SelectPiece(at(0, 0))
    );
    assert_eq!(
        process_selected_tile(&board, red, true, Some(at(0, 0)), &none, at(0, 0)),
        TileAction::Nothing
    );
    assert_eq!(
        process_selected_tile(&board, red, true, Some(at(0, 0)), &none, at(1, 0)),
        TileAction::SelectPiece(at(1, 0))
    );
    assert_eq!(
        process_selected_tile(&board, red, true, None, &none, at(0, 4)),
        TileAction::Nothing
    );
    assert_eq!(
        process_selected_tile(&board, red, true, None, &none, at(2, 2)),
        TileAction::Nothing
    );
    assert_eq!(
        process_selected_tile(&board, red, true, None, &none, at(7, 2)),
        TileAction::Nothing
    );
    let allowed = vec![at(0, 2), at(0, 4)];
    assert_eq!(
        process_selected_tile(&board, red, true, Some(at(0, 0)), &allowed, at(0, 4)),
        TileAction::MovePiece(at(0, 4))
    );
}

#[test]
fn clicks_on_cards_select_only_cards_of_the_side_to_move() {
    let deck = deck_of([0, 1, 2, 3, 4]);
    let red = PlayerColor::Red;
    let blue = PlayerColor::Blue;
    assert_eq!(card_selection_handling(&deck, red, None, Some(CardId(23))), CardAction::Select(CardId(23)));
    assert_eq!(card_selection_handling(&deck, red, Some(CardId(23)), Some(CardId(23))), CardAction::Keep);
    assert_eq!(
        card_selection_handling(&deck, red, Some(CardId(23)), Some(CardId(24))),
        CardAction::Select(CardId(24))
    );
    assert_eq!(card_selection_handling(&deck, red, None, Some(CardId(20))), CardAction::Rejected);
    assert_eq!(card_selection_handling(&deck, red, None, Some(CardId(22))), CardAction::Rejected);
    assert_eq!(card_selection_handling(&deck, blue, None, Some(CardId(22))), CardAction::Rejected);
    assert_eq!(card_selection_handling(&deck, blue, None, Some(CardId(21))), CardAction::Select(CardId(21)));
    assert_eq!(card_selection_handling(&deck, blue, Some(CardId(21)), None), CardAction::Deselect);
    assert_eq!(card_selection_handling(&deck, blue, None, None), CardAction::Nothing);
    assert_eq!(card_selection_handling(&deck, blue, None, Some(CardId(77))), CardAction::Nothing);
}
