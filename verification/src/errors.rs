//! The errors of the ledger.

use vstd::prelude::*;

verus! {

/// Every way in which a ledger operation can be refused.
///
/// All errors are plain values handed back to the caller; an operation that
/// returns one has changed nothing.
#[derive(Clone, Copy, Debug, PartialEq, Eq, Structural)]
pub enum ErrorMessage {
    /// The caller is not allowed to create pools.
    Unauthorized,
    /// The sale would start before the moment of creation.
    StartTimeInPast,
    /// The sale would end before the moment of creation.
    EndTimeInPast,
    /// The sale would end before it starts.
    EndBeforeStart,
    /// Claims would open before the moment of creation.
    ClaimTimeInPast,
    /// Claims would open before the sale ends.
    ClaimBeforeEnd,
    /// A pool with this identifier is already on the ledger.
    PoolAlreadyExists,
    /// No pool with this identifier is on the ledger.
    PoolNotFound,
    /// The sale has not started yet.
    SaleNotStarted,
    /// The sale is over.
    SaleEnded,
    /// Nothing was paid, or the payment buys no token at all.
    InvalidAmount,
    /// The purchase asks for more tokens than the pool has left.
    SupplyExceeded,
    /// Claims are not open yet.
    ClaimNotStarted,
    /// The buyer has bought nothing in this pool.
    NothingToClaim,
    /// The buyer's purchases in this pool are already settled.
    AlreadyClaimed,
    /// An amount left the range the ledger can represent.
    ArithmeticOverflow,
}

} // verus!
