//! A chess rules engine: algebraic notation, move geometry, legality and
//! detection of check, checkmate and stalemate.
//!
//! A [`Game`] holds a [`Board`], the side to move and the state of play.
//! [`Command::parse`] reads a move from its notation and [`Game::play`]
//! plays it, or says why it cannot be played. Castling is supported; en
//! passant and promotion are not: a pawn that reaches the last rank stays a
//! pawn.
//!
//! Squares are pairs `(file, rank)` counted from 1, so that `(5, 1)` is e1.
//! Contracts speak of a board as a map from squares to pieces, and of a
//! move as accepted or refused by [`game::move_outcome`]. The module
//! [`laws`] holds what is proved of these functions together.

pub mod board;
pub mod command;
pub mod display;
pub mod game;
pub mod geometry;
pub mod laws;
pub mod moves;
pub mod notation;
pub mod setup;
mod text;
pub mod types;

pub use board::Board;
pub use command::{Command, CommandBuilder};
pub use game::Game;
pub use geometry::{
    column_index_to_letter, coords_match_from, coords_to_notation, is_on_board,
    letter_to_column_index, next_coords, notation_to_coords, pawn_move, squares_between, Square,
};
pub use types::{Castle, Check, ChessError, Color, GameState, Piece, PieceType};
