//! The dispute resolver: on-chain arbitration of double-spend conflicts that
//! could not be settled off-chain.
//!
//! A party raises a dispute over a transaction with a relay chain proof; the
//! named respondent may answer with a counter-proof within the resolution
//! window; a ruling then names a winner and a loser.

pub mod contract;
pub mod errors;
pub mod laws;
pub mod types;
