//! Rules engine and adversarial search for a two-player card-driven strategy
//! game on a 5x5 board: legal-move generation, move application with exact
//! undo, the five-card rotation pool, the turn engine, a static evaluation and
//! a fixed-depth alpha-beta search, each with a machine-checked contract.
pub mod player;
pub mod coordinates;
pub mod pieces;
pub mod tile;
pub mod card;
pub mod tile_map;
pub mod agent;
pub mod human;
pub mod random_agent;
pub mod alpha_beta;
pub mod minimax;
pub mod game_state;
pub mod deck;
pub mod evaluation;
pub mod depth;
pub mod card_board;
pub mod physical_deck;
pub mod game_state_process;
pub mod board_input;
pub mod card_input;
