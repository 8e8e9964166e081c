//! Why a vesting operation is refused.

use vstd::prelude::*;
pub use crate::errors::StdError;
use crate::payment::{FeeError, PaymentError};

verus! {

/// Why an operation is refused. A refused operation changes nothing.
#[derive(Clone, Debug, PartialEq, Eq)]
pub enum ContractError {
    Std(StdError),
    Payment(PaymentError),
    Unauthorized {},
    MemberNotFound {},
    /// No funds that can be released currently.
    NothingToClaim {},
    InvalidFeeAmount {},
    /// Cannot migrate from a different contract type.
    CannotMigrate { previous_contract: String },
}

impl ContractError {
    /// The contract error that stands for an unpaid fee.
    pub fn from_fee(error: FeeError) -> (res: ContractError)
        ensures
            match error {
                FeeError::Payment(inner) => res == ContractError::Payment(inner),
                FeeError::InvalidFeeAmount => res == ContractError::InvalidFeeAmount {},
            },
    {
        match error {
            FeeError::Payment(inner) => ContractError::Payment(inner),
            FeeError::InvalidFeeAmount => ContractError::InvalidFeeAmount {},
        }
    }
}

} // verus!
