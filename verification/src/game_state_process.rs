use vstd::prelude::*;
use vstd::string::*;
use crate::game_state::GameState;
use crate::player::{PlayerColor, PlayerType};
use crate::tile_map::MoveResult;

verus! {

/// The number of plies past which a match is declared a tie.
pub const TIE_TURN_LIMIT: u16 = 200;

/// The name of a side.
pub open spec fn color_name(color: PlayerColor) -> Seq<char> {
    match color {
        PlayerColor::Red => "Red"@,
        PlayerColor::Blue => "Blue"@,
    }
}

/// What is announced after a move: that the side that moved has won, when
/// the move was a win, and then that the match is a tie, when the ply
/// counter has passed the limit.
pub open spec fn announcements(result: MoveResult, mover: PlayerColor, turn: int) -> Seq<
    Seq<char>,
> {
    let won = if result == MoveResult::Win {
        seq![color_name(mover) + " has won!"@]
    } else {
        Seq::empty()
    };
    if turn > TIE_TURN_LIMIT {
        won.push("It is a tie!"@)
    } else {
        won
    }
}

/// The name of a side.
pub fn name_of(color: PlayerColor) -> (r: &'static str)
    ensures
        r@ == color_name(color),
{
    match color {
        PlayerColor::Red => "Red",
        PlayerColor::Blue => "Blue",
    }
}

/// Whether the player to move is a strategy that has to be asked for its
/// move, and not a human who moves through the user interface.
pub fn turn_process(game_state: &GameState) -> (ask_agent: bool)
    requires
        game_state.current_player_idx < 2,
    ensures
        ask_agent == (game_state.players@[game_state.current_player_idx as int].player_type
            != PlayerType::Human),
{
    match game_state.get_current_player().player_type {
        PlayerType::Human => false,
        PlayerType::Random => true,
        PlayerType::AlphaBeta => true,
    }
}

/// Advances the match by one ply and gives the line that asks the side now
/// to move for a card.
pub fn next_turn_event(game_state: &mut GameState) -> (text: String)
    requires
        old(game_state).turn < u16::MAX,
        old(game_state).current_player_idx < 2,
    ensures
        *final(game_state) == old(game_state).advanced(),
        text@ == color_name(final(game_state).curr_color) + " to move. Select a card."@,
{
    game_state.next_turn();
    let mut text = String::from_str(name_of(game_state.curr_color));
    text.append(" to move. Select a card.");
    text
}

/// What is to be announced after a move that gave `result`, made by the
/// side that `game_state` still shows as active. The match is over exactly
/// when there is something to announce.
pub fn process_win_condition(result: MoveResult, game_state: &GameState) -> (texts: Vec<String>)
    ensures
        texts@.len() == announcements(
            result,
            game_state.curr_color,
            game_state.turn as int,
        ).len(),
        forall|i: int|
            0 <= i < texts@.len() ==> (#[trigger] texts@[i])@ == announcements(
                result,
                game_state.curr_color,
                game_state.turn as int,
            )[i],
        texts@.len() > 0 <==> result == MoveResult::Win || game_state.turn > TIE_TURN_LIMIT,
{
    let mut texts: Vec<String> = Vec::new();
    if result == MoveResult::Win {
        let mut text = String::from_str(name_of(game_state.curr_color));
        text.append(" has won!");
        texts.push(text);
    }
    if game_state.turn > TIE_TURN_LIMIT {
        texts.push(String::from_str("It is a tie!"));
    }
    texts
}

} // verus!
