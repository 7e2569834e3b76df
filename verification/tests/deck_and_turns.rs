use onitama::agent::Agent;
use onitama::card::Card;
use onitama::card_board::CardOwner;
use onitama::deck::{CardId, Deck};
use onitama::depth::Depth;
use onitama::game_state::{GameState, Player};
use onitama::human::Human;
use onitama::physical_deck::PhysicalDeck;
use onitama::player::{PlayerColor, PlayerType, SelectedPlayers};

fn human() -> Player {
    Player { agent: Agent::Human(Human), player_type: PlayerType::Human }
}

fn deck_of(indices: [u8; 5]) -> Deck {
    let ids: Vec<CardId> = (0..5u64).map(|i| CardId(100 + i)).collect();
    let cards: Vec<Card> = indices.iter().map(|i| Card::from_catalog(*i)).collect();
    Deck::new(&ids, &cards).unwrap()
}

fn layout(deck: &Deck, turn: &mut GameState) -> Vec<(CardId, &'static str, bool)> {
    turn.clear();
    let red = deck.get_player_cards(turn);
    turn.next_turn();
    let blue = deck.get_player_cards(turn);
    turn.clear();
    blue.iter().chain(red.iter()).map(|(id, c)| (*id, c.name, c.is_mirrored)).collect()
}

#[test]
fn new_deck_mirrors_the_first_two_slots_only() {
    let deck = deck_of([0, 1, 2, 3, 4]);
    let mut turn = GameState::new(human(), human());
    assert_eq!(
        layout(&deck, &mut turn),
        vec![
            (CardId(100), "Tiger", true),
            (CardId(101), "Crab", true),
            (CardId(103), "Crane", false),
            (CardId(104), "Dragon", false),
        ]
    );
    assert_eq!(deck.cards, (0..5u64).map(|i| CardId(100 + i)).collect::<Vec<_>>());
}

#[test]
fn deck_needs_five_cards_with_five_different_identifiers() {
    let cards: Vec<Card> = (0..5u8).map(Card::from_catalog).collect();
    let ids: Vec<CardId> = (0..5u64).map(CardId).collect();
    assert!(Deck::new(&ids, &cards).is_some());
    assert!(Deck::new(&ids[..4].to_vec(), &cards).is_none());
    assert!(Deck::new(&ids, &cards[..4].to_vec()).is_none());
    let twice = vec![CardId(0), CardId(1), CardId(2), CardId(1), CardId(4)];
    assert!(Deck::new(&twice, &cards).is_none());
}

#[test]
fn rotation_of_a_first_slot_swaps_with_neutral_and_moves_the_mirror_flag() {
    let mut deck = deck_of([0, 1, 2, 3, 4]);
    let mut turn = GameState::new(human(), human());
    deck.swap_card_with_neutral(1);
    assert_eq!(
        deck.cards,
        vec![CardId(100), CardId(102), CardId(101), CardId(103), CardId(104)]
    );
    assert_eq!(
        layout(&deck, &mut turn),
        vec![
            (CardId(100), "Tiger", true),
            (CardId(102), "Monkey", true),
            (CardId(103), "Crane", false),
            (CardId(104), "Dragon", false),
        ]
    );
    deck.swap_card_with_neutral(3);
    assert_eq!(
        layout(&deck, &mut turn),
        vec![
            (CardId(100), "Tiger", true),
            (CardId(102), "Monkey", true),
            (CardId(101), "Crab", false),
            (CardId(104), "Dragon", false),
        ]
    );
}

#[test]
fn rotating_the_same_slot_twice_restores_the_deck() {
    for slot in 0..5usize {
        let mut deck = deck_of([5, 6, 7, 8, 9]);
        let mut turn = GameState::new(human(), human());
        let before = layout(&deck, &mut turn);
        let slots = deck.cards.clone();
        deck.swap_card_with_neutral(slot);
        deck.swap_card_with_neutral(slot);
        assert_eq!(deck.cards, slots);
        assert_eq!(layout(&deck, &mut turn), before);
    }
}

#[test]
fn cloned_deck_is_independent_of_its_source() {
    let deck = deck_of([0, 1, 2, 3, 4]);
    let mut copy = deck.clone();
    copy.swap_card_with_neutral(0);
    let mut turn = GameState::new(human(), human());
    assert_eq!(layout(&deck, &mut turn)[0], (CardId(100), "Tiger", true));
    assert_eq!(layout(&copy, &mut turn)[0], (CardId(102), "Monkey", true));
}

#[test]
fn turns_alternate_and_undo_inverts_next() {
    let mut turn = GameState::new(human(), human());
    assert_eq!((turn.turn, turn.curr_color, turn.current_player_idx), (0, PlayerColor::Red, 0));
    turn.next_turn();
    assert_eq!((turn.turn, turn.curr_color, turn.current_player_idx), (1, PlayerColor::Blue, 1));
    turn.next_turn();
    assert_eq!((turn.turn, turn.curr_color, turn.current_player_idx), (2, PlayerColor::Red, 0));
    turn.next_turn();
    turn.undo_next_turn();
    assert_eq!((turn.turn, turn.curr_color, turn.current_player_idx), (2, PlayerColor::Red, 0));
    turn.undo_next_turn();
    assert_eq!((turn.turn, turn.curr_color, turn.current_player_idx), (1, PlayerColor::Blue, 1));
    turn.clear();
    assert_eq!((turn.turn, turn.curr_color, turn.current_player_idx), (0, PlayerColor::Red, 0));
}

#[test]
fn current_player_is_the_one_bound_to_the_active_side() {
    let red = Player { agent: Agent::Human(Human), player_type: PlayerType::Human };
    let blue = Player {
        agent: Agent::Random(onitama::random_agent::RandomAgent),
        player_type: PlayerType::Random,
    };
    let mut turn = GameState::new(red, blue);
    assert_eq!(turn.get_current_player().player_type, PlayerType::Human);
    turn.next_turn();
    assert_eq!(turn.get_current_player().player_type, PlayerType::Random);
}

#[test]
fn sides_switch_to_their_opponents() {
    let mut color = PlayerColor::Red;
    assert_eq!(color.enemy(), PlayerColor::Blue);
    color.switch();
    assert_eq!(color, PlayerColor::Blue);
    assert_eq!(color.enemy(), PlayerColor::Red);
    color.switch();
    assert_eq!(color, PlayerColor::Red);
}

#[test]
fn card_owner_matches_only_its_own_side() {
    assert!(CardOwner::Blue.does_belong_to_player(&PlayerColor::Blue));
    assert!(CardOwner::Red.does_belong_to_player(&PlayerColor::Red));
    assert!(!CardOwner::Blue.does_belong_to_player(&PlayerColor::Red));
    assert!(!CardOwner::Red.does_belong_to_player(&PlayerColor::Blue));
    assert!(!CardOwner::Neutral.does_belong_to_player(&PlayerColor::Red));
    assert!(!CardOwner::Neutral.does_belong_to_player(&PlayerColor::Blue));
    assert_eq!(CardOwner::from_slot(0), CardOwner::Blue);
    assert_eq!(CardOwner::from_slot(2), CardOwner::Neutral);
    assert_eq!(CardOwner::from_slot(4), CardOwner::Red);
}

#[test]
fn depth_moves_between_two_and_twelve() {
    let mut depth = Depth::default();
    assert_eq!(depth.0, 6);
    assert_eq!(depth.to_string(), "6");
    for _ in 0..10 {
        depth.add();
    }
    assert_eq!(depth.0, 12);
    for _ in 0..20 {
        depth.sub();
    }
    assert_eq!(depth.0, 2);
    let mut high = Depth(255);
    high.add();
    assert_eq!(high.0, 255);
    let mut low = Depth(0);
    low.sub();
    assert_eq!(low.0, 0);
}

#[test]
fn selected_players_start_as_humans() {
    let players = SelectedPlayers::default();
    assert_eq!(players.red_player, PlayerType::Human);
    assert_eq!(players.blue_player, PlayerType::Human);
}

#[test]
fn physical_deck_takes_the_named_cards_in_reverse() {
    let mut deck = PhysicalDeck::new();
    assert!(deck.cards.is_empty());
    deck.take_cards_from_indices(&vec![0, 1, 2, 3, 15]);
    let names: Vec<&str> = deck.cards.iter().map(|c| c.name).collect();
    assert_eq!(names, vec!["Cobra", "Crane", "Monkey", "Crab", "Tiger"]);
    assert!(deck.cards.iter().all(|c| !c.is_mirrored));
    assert_eq!(deck.cards[4].directions, &[(0, 2), (0, -1)]);
    deck.clear();
    assert!(deck.cards.is_empty());
}
