//! Verified models of two Soroban contracts of a relay network: a dispute
//! resolver that arbitrates double-spend conflicts between two parties, and a
//! relay registry that tracks relay nodes, their stake and their status.

pub mod account;
pub mod council;
pub mod keyed;
pub mod ledger;
pub mod dispute_resolver;
pub mod relay_registry;
