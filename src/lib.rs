//! A chess rules engine: board state, per-piece move generation, check and
//! checkmate detection, and a turn/promotion state machine, with every
//! operation specified and proved against a mathematical model of the board.

pub mod board;
pub mod check;
pub mod coords;
pub mod game;
pub mod laws;
pub mod movement;
pub mod types;

pub use board::{Occupant, Square};
pub use check::{check_for_checked, check_for_checkmate};
pub use coords::{format_position, parse_piece, parse_position};
pub use game::Game;
pub use types::{Colour, GameState, MovementMode, Piece};
