//! The audit record of a purchase or a claim.

use crate::states::address::Address;
use vstd::prelude::*;

verus! {

/// The audit record of one settled step of a buyer in a pool: a purchase
/// (currency paid, tokens credited) or a claim (no currency, tokens handed
/// over).
#[derive(Clone, Copy, Debug, PartialEq, Eq)]
pub struct BuyTokenEvent {
    pub buyer: Address,
    pub pool: Address,
    pub currency_amount: u64,
    pub tokens_received: u64,
    pub timestamp: u64,
}

} // verus!
