//! Transfer intents: the asset movements that the ledger asks for.

use crate::events::buy_token_event::BuyTokenEvent;
use crate::states::address::Address;
use vstd::prelude::*;

verus! {

/// One end of an asset movement.
#[derive(Clone, Copy, Debug, PartialEq, Eq)]
pub enum Party {
    /// A participant's own holdings.
    Buyer(Address),
    /// The treasury that collects the payments of the pool with this
    /// identifier.
    Treasury(Address),
    /// The custody that holds the sale tokens of the pool with this
    /// identifier.
    PoolCustody(Address),
}

/// An instruction to move `amount` units of `asset` from one party to
/// another. The ledger only issues it; whoever holds the assets carries it
/// out.
#[derive(Clone, Copy, Debug, PartialEq, Eq)]
pub struct TransferIntent {
    pub asset: Address,
    pub from: Party,
    pub to: Party,
    pub amount: u64,
}

/// What a successful purchase or claim hands back: the tokens bought or
/// claimed, the transfer to carry out, and the audit record.
#[derive(Clone, Copy, Debug, PartialEq, Eq)]
pub struct Settlement {
    pub tokens: u64,
    pub transfer: TransferIntent,
    pub event: BuyTokenEvent,
}

} // verus!
