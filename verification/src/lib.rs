//! Scoring engine for a word-guessing game: classifies each letter of a
//! guess against a secret solution as an exact match, a present-but-misplaced
//! match, or absent, and drives a bounded session of guesses around that
//! classification.

pub mod externals;
pub mod game;
pub mod game_state;
pub mod letter_pool;
pub mod matching;
