//! Move notation, input validation and the small decisions of a terminal chess game.
pub mod board;
pub mod game;
pub mod notation;
pub mod numbers;
pub mod prompt;
pub mod random;
pub mod style;
pub mod text;
