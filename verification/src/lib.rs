//! A word-guessing game engine.
//!
//! A hidden word of fixed length is compared against successive guesses. Each
//! guess is scored letter by letter, and the game ends when a guess matches
//! the word or the allowed number of attempts is used up.
//!
//! Lengths of words are counted in characters throughout.

pub mod game;
pub mod letter;
pub mod render;
pub mod session;
pub mod text;
pub mod words;

pub use game::{Game, GameError, TryResult};
pub use letter::{GameStatus, Letter};
