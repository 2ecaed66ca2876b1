//! Game logic of a five-letter word guessing game: scoring a guess
//! against the answer, the hard-mode rule, statistics, shareable links,
//! and the state machine that drives a session.
pub mod game;
pub mod text;
pub mod hard_mode;
pub mod stats;
pub mod share;
pub mod words;
pub mod page;
pub mod keyboard;
pub mod session;
