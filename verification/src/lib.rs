//! A verified chess engine core: bitboard position, pseudo-legal move
//! generation, legality filtering, make/undo, perft, and a material-only
//! alpha-beta search.

pub mod bits;
pub mod board;
pub mod game;
pub mod movegen;
pub mod perft;
pub mod search;
pub mod text;

pub use board::Pieces;
pub use board::Player;
