//! Distinguishing wrappers over 20-byte account addresses.
//!
//! An externally-owned account and a contract account are kept apart at the
//! type level so the two can never be mixed by accident; each compares by its
//! raw bytes.

use vstd::prelude::*;

verus! {

/// Address of an externally-owned account: exactly 20 raw bytes.
#[derive(Clone, Debug, PartialEq, Eq, PartialOrd, Ord, Hash)]
pub struct EoaAddress(pub Vec<u8>);

/// Address of a contract account: exactly 20 raw bytes.
#[derive(Clone, Debug, PartialEq, Eq, PartialOrd, Ord, Hash)]
pub struct ContractAddress(pub Vec<u8>);

impl View for EoaAddress {
    type V = Seq<u8>;

    open spec fn view(&self) -> Seq<u8> {
        self.0@
    }
}

impl View for ContractAddress {
    type V = Seq<u8>;

    open spec fn view(&self) -> Seq<u8> {
        self.0@
    }
}

impl EoaAddress {
    /// The wrapper holds exactly 20 bytes.
    pub open spec fn well_formed(&self) -> bool {
        self@.len() == 20
    }
}

impl ContractAddress {
    /// The wrapper holds exactly 20 bytes.
    pub open spec fn well_formed(&self) -> bool {
        self@.len() == 20
    }
}

} // verus!
