//! Chess games on top of the move generation of the `chess` crate: what
//! kind of move a move is, when a game is drawn, a move enumerator with a
//! mask that can be changed while it runs, and the game itself, which keeps
//! the position, the two move counters and the history of position hashes.
//!
//! The position and its legal moves come from the `chess` crate, through
//! the functions of `position`, whose contracts are taken on trust. All
//! else is decided here, and proved to do what its contracts say.

pub mod color;
pub mod square;
pub mod bitboard;
pub mod text;
pub mod grid;
pub mod piece;
pub mod moves;
pub mod castle_rights;
pub mod fen;
pub mod position;
pub mod classify;
pub mod draw;
pub mod movegen;
pub mod game;
pub mod equality;
