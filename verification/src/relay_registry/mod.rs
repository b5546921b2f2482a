//! The relay registry: relay node registration, staking with a lock period
//! on withdrawal, and council-governed slashing and reinstatement.

pub mod contract;
pub mod errors;
pub mod laws;
pub mod types;
