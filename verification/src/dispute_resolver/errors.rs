//! Error codes returned by the dispute resolver.

use vstd::prelude::*;

verus! {

/// Errors returned by the dispute resolver. Each variant has a stable
/// numeric code for clients, given by [`ContractError::code`].
#[derive(Clone, Copy, Debug, PartialEq, Eq, PartialOrd, Ord)]
pub enum ContractError {
    /// The referenced dispute does not exist.
    DisputeNotFound,
    /// The dispute has already been resolved.
    DisputeAlreadyResolved,
    /// Resolution needs a response that was never given.
    NotResponded,
    /// Neither proof carries a valid signature.
    InvalidProofSignature,
    /// A relay chain hash is malformed.
    InvalidChainHash,
    /// A configuration value is invalid.
    InvalidConfig,
    /// The admin council configuration is invalid.
    InvalidCouncilConfig,
    /// A dispute for the same transaction already exists.
    DuplicateDispute,
    /// The caller may not perform the action.
    Unauthorized,
    /// The dispute is not open.
    NotOpen,
    /// The response deadline has passed.
    ResolutionWindowExpired,
    /// The respondent's window is still running.
    ResolutionWindowActive,
    /// The contract has not been initialized.
    NotInitialized,
    /// The contract has already been initialized.
    AlreadyInitialized,
    /// The initiator named themselves as respondent.
    InvalidRespondent,
    /// Someone other than the named respondent tried to respond.
    UnauthorizedRespondent,
}

/// The numeric code of each error, as clients see it.
pub open spec fn error_code(e: ContractError) -> u32 {
    match e {
        ContractError::DisputeNotFound => 1,
        ContractError::DisputeAlreadyResolved => 2,
        ContractError::NotResponded => 3,
        ContractError::InvalidProofSignature => 4,
        ContractError::InvalidChainHash => 5,
        ContractError::InvalidConfig => 6,
        ContractError::InvalidCouncilConfig => 7,
        ContractError::DuplicateDispute => 8,
        ContractError::Unauthorized => 9,
        ContractError::NotOpen => 10,
        ContractError::ResolutionWindowExpired => 11,
        ContractError::ResolutionWindowActive => 12,
        ContractError::NotInitialized => 13,
        ContractError::AlreadyInitialized => 14,
        ContractError::InvalidRespondent => 15,
        ContractError::UnauthorizedRespondent => 16,
    }
}

impl ContractError {
    /// Returns the stable numeric code of this error.
    pub fn code(&self) -> (r: u32)
        ensures
            r == error_code(*self),
    {
        match self {
            ContractError::DisputeNotFound => 1,
            ContractError::DisputeAlreadyResolved => 2,
            ContractError::NotResponded => 3,
            ContractError::InvalidProofSignature => 4,
            ContractError::InvalidChainHash => 5,
            ContractError::InvalidConfig => 6,
            ContractError::InvalidCouncilConfig => 7,
            ContractError::DuplicateDispute => 8,
            ContractError::Unauthorized => 9,
            ContractError::NotOpen => 10,
            ContractError::ResolutionWindowExpired => 11,
            ContractError::ResolutionWindowActive => 12,
            ContractError::NotInitialized => 13,
            ContractError::AlreadyInitialized => 14,
            ContractError::InvalidRespondent => 15,
            ContractError::UnauthorizedRespondent => 16,
        }
    }
}

} // verus!
