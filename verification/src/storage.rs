//! What each user holds with a contract to pay for its storage.
use vstd::prelude::*;

verus! {

/// The NEAR (in yoctoNEAR) that a user holds with the contract.
#[derive(Clone, Copy, PartialEq, Eq, Structural, Debug)]
pub struct StorageAccount {
    pub balance: u128,
}

} // verus!
