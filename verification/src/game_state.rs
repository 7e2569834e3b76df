use vstd::prelude::*;
use crate::agent::Agent;
use crate::player::{PlayerColor, PlayerType};

verus! {

/// A participant: the strategy that moves for it, and its kind.
#[derive(Debug, Clone, Copy)]
pub struct Player {
    pub agent: Agent,
    pub player_type: PlayerType,
}

/// The turn engine: whose move it is, and how many plies were played.
#[derive(Debug, Clone, Copy)]
pub struct GameState {
    pub players: [Player; 2],
    pub turn: u16,
    pub current_player_idx: usize,
    pub curr_color: PlayerColor,
}

/// The side to move after `turn` plies: Red on even counts, Blue on odd ones.
pub open spec fn side_to_move(turn: int) -> PlayerColor {
    if turn % 2 == 0 {
        PlayerColor::Red
    } else {
        PlayerColor::Blue
    }
}

impl GameState {
    /// The active side and the active player's index are those that the ply
    /// counter determines.
    pub open spec fn wf(&self) -> bool {
        &&& self.curr_color == side_to_move(self.turn as int)
        &&& self.current_player_idx == self.turn % 2
    }

    /// The state after one more ply.
    pub open spec fn advanced(self) -> GameState {
        GameState {
            turn: (self.turn + 1) as u16,
            curr_color: self.curr_color.opponent(),
            current_player_idx: ((self.current_player_idx + 1) % 2) as usize,
            ..self
        }
    }

    /// The state one ply earlier.
    pub open spec fn reverted(self) -> GameState {
        GameState {
            turn: (self.turn - 1) as u16,
            curr_color: self.curr_color.opponent(),
            current_player_idx: ((self.current_player_idx + 1) % 2) as usize,
            ..self
        }
    }

    /// A match before its first ply: Red, the first player, is to move.
    pub fn new(red_player: Player, blue_player: Player) -> (r: Self)
        ensures
            r.wf(),
            r.turn == 0,
            r.curr_color == PlayerColor::Red,
            r.current_player_idx == 0,
            r.players@ == seq![red_player, blue_player],
    {
        let r = Self {
            players: [red_player, blue_player],
            turn: 0,
            current_player_idx: 0,
            curr_color: PlayerColor::Red,
        };
        assert(r.players@ =~= seq![red_player, blue_player]);
        r
    }

    /// Goes back to the state before the first ply, with the same players.
    #[inline]
    pub fn clear(&mut self)
        ensures
            final(self).wf(),
            final(self).turn == 0,
            final(self).curr_color == PlayerColor::Red,
            final(self).current_player_idx == 0,
            final(self).players == old(self).players,
    {
        self.turn = 0;
        self.current_player_idx = 0;
        self.curr_color = PlayerColor::Red;
    }

    /// The player whose move it is.
    #[inline]
    pub fn get_current_player(&self) -> (r: &Player)
        requires
            self.current_player_idx < 2,
        ensures
            *r == self.players@[self.current_player_idx as int],
    {
        &self.players[self.current_player_idx]
    }

    /// Advances by one ply: the counter grows by one and the other side is to move.
    #[inline]
    pub fn next_turn(&mut self)
        requires
            old(self).turn < u16::MAX,
            old(self).current_player_idx < 2,
        ensures
            *final(self) == old(self).advanced(),
            old(self).wf() ==> final(self).wf(),
    {
        self.turn += 1;
        self.curr_color.switch();
        self.current_player_idx = (self.current_player_idx + 1) % 2;
    }

    /// Goes back by one ply: the counter drops by one and the other side is to move.
    #[inline]
    pub fn undo_next_turn(&mut self)
        requires
            old(self).turn > 0,
            old(self).current_player_idx < 2,
        ensures
            *final(self) == old(self).reverted(),
            old(self).wf() ==> final(self).wf(),
    {
        self.turn -= 1;
        self.curr_color.switch();
        self.current_player_idx = (self.current_player_idx + 1) % 2;
    }
}

/// Turn symmetry: one ply forward and one ply back give the state one started from.
pub proof fn lemma_turn_symmetry(state: GameState)
    requires
        state.turn < u16::MAX,
        state.current_player_idx < 2,
    ensures
        state.advanced().reverted() == state,
{
}

/// The ply counter and the active side after `n` plies from the start are
/// determined by `n` alone.
pub proof fn lemma_advanced_keeps_wf(state: GameState)
    requires
        state.wf(),
        state.turn < u16::MAX,
    ensures
        state.advanced().wf(),
        state.advanced().turn == state.turn + 1,
        state.advanced().curr_color == side_to_move(state.turn + 1),
{
}

} // verus!
