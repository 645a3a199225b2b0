//! The error taxonomy of the marketplace.  Every failing operation aborts
//! with one of these and leaves the state untouched.

use vstd::prelude::*;

verus! {

/// Why an operation was refused.
#[derive(Debug, PartialEq)]
pub enum ContractError {
    /// The caller lacks the right to act: wrong seller or owner, or an
    /// expiring custody approval where a permanent one is required.
    Unauthorized {},
    /// No listing or order exists at the given key.
    NotFound {},
    /// Creation collides with an entry that is still active.
    AlreadyExists {},
    /// The operation needs an `Ongoing` listing but found a terminal one.
    ListingNotActive {},
    /// The attached payment does not match the listing's price exactly.
    InsufficientFunds {},
    /// The offerer's registered allowance is below the offered amount, or
    /// the allowance lookup failed.
    InsufficientAllowance {},
    /// The offerer's registered balance is below the offered amount, or
    /// the balance lookup failed.
    InsufficientBalance {},
    /// An offer's expiry instant is already in the past when it is placed.
    InvalidEndTime {},
    /// A validation failure described by a message.
    CustomError { val: String },
}

impl ContractError {
    /// Validation errors carry a message; comparing errors in contracts
    /// goes by variant and, for custom errors, by that message.
    pub open spec fn spec_eq(self, other: ContractError) -> bool {
        match (self, other) {
            (ContractError::Unauthorized {}, ContractError::Unauthorized {}) => true,
            (ContractError::NotFound {}, ContractError::NotFound {}) => true,
            (ContractError::AlreadyExists {}, ContractError::AlreadyExists {}) => true,
            (ContractError::ListingNotActive {}, ContractError::ListingNotActive {}) => true,
            (ContractError::InsufficientFunds {}, ContractError::InsufficientFunds {}) => true,
            (
                ContractError::InsufficientAllowance {},
                ContractError::InsufficientAllowance {},
            ) => true,
            (ContractError::InsufficientBalance {}, ContractError::InsufficientBalance {}) => true,
            (ContractError::InvalidEndTime {}, ContractError::InvalidEndTime {}) => true,
            (
                ContractError::CustomError { val: a },
                ContractError::CustomError { val: b },
            ) => a@ == b@,
            _ => false,
        }
    }
}

} // verus!
