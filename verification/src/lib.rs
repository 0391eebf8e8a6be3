//! Exhaustive adversarial solver for 3x3 tic-tac-toe.
//!
//! The board is a fixed array of nine cells mutated in place by a minimax
//! search with two independently toggleable pruning strategies (alpha-beta
//! window cutoffs and win/lose short-circuiting).  The search is proved to
//! return the game-theoretic value of the position regardless of which
//! pruning strategies are enabled, to restore the board exactly before
//! returning, and to keep an invocation counter within proven bounds.

pub mod board;
pub mod harness;
pub mod search;
pub mod wins;

pub use board::Board;
pub use board::Piece;
pub use harness::SequentialReport;
pub use search::SearchConfig;
