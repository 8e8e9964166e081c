//! The query of the platform registry and its answer.

use vstd::prelude::*;

verus! {

/// The question put to the platform registry.
#[derive(Clone, Debug, PartialEq, Eq)]
pub enum PlatformRegistryQueryMsg {
    /// Returns whether the address is registered and has estate shares.
    AddressBaseInfo { address: String },
}

/// What the platform registry knows of an address.
#[derive(Clone, Copy, Debug, PartialEq, Eq, Structural)]
pub struct AddressBaseInfoResponse {
    pub is_registered: bool,
    pub is_property_buyer: bool,
}

} // verus!
