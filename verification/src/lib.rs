//! A word-guessing game engine: scoring of guesses against a secret word,
//! the per-letter keyboard state of a round, and the round's state machine.

pub mod verdict;
pub mod evaluate;
pub mod keyboard;
pub mod round;
pub mod render;
pub mod language;
pub mod input;
pub mod dictionary;
pub mod text;
