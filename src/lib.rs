//! A commit-reveal "two truths and a lie" game ledger.
//!
//! A creator publishes the SHA-256 digest of three statements, the index of
//! the false one and a secret salt. Others record guesses while the statements
//! are hidden; the creator later reveals them, and the ledger accepts the
//! reveal only when the same digest is re-derived from what was revealed.
pub mod commitment;
pub mod game;
pub mod laws;
pub mod ledger;

pub use game::{Address, DataKey, Game, GameError};
pub use ledger::TruthsGameContract;
