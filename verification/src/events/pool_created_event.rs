//! The audit record of a new pool.

use crate::states::address::Address;
use vstd::prelude::*;

verus! {

/// The audit record of a pool's creation.
#[derive(Clone, Copy, Debug, PartialEq, Eq)]
pub struct PoolCreatedEvent {
    pub signer: Address,
    pub pool: Address,
    pub accept_currency: Address,
    pub mint: Address,
    pub timestamp: u64,
}

} // verus!
