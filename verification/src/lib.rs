//! A small UCI chess engine: iterative-deepening alpha-beta search with
//! move ordering, a hand-crafted static evaluation, adaptive time
//! management, and an optional quiescence extension, built on top of an
//! opaque chess-primitives library.

pub mod chessutil;
pub mod engine;
pub mod evaluation;
pub mod mcts;
pub mod minimax;
pub mod prims;
pub mod search;
pub mod ucigocommand;
pub mod zobristhasher;
