//! A chess move generator: board representation, pseudo-legal move
//! generation, make/unmake of moves and perft node counting.

pub mod types;
pub mod lists;
pub mod board;
pub mod attacks;
pub mod movegen;
pub mod soundness;
pub mod perft;
pub mod notation;
pub mod fen;
pub mod text;
