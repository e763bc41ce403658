//! Purchase records.

use crate::states::address::Address;
use vstd::prelude::*;

verus! {

/// The mathematical content of a purchase record.
pub struct ReceiptView {
    pub pool_id: Address,
    pub buyer: Address,
    pub amount_purchased: nat,
    pub amount_claimed: nat,
    pub claimed: bool,
}

impl ReceiptView {
    /// A record stands for at least one token bought, and its claim is all
    /// or nothing: once claimed, everything bought was handed over; before
    /// that, nothing was.
    pub open spec fn wf(self) -> bool {
        &&& self.amount_purchased > 0
        &&& self.claimed ==> self.amount_claimed == self.amount_purchased
        &&& !self.claimed ==> self.amount_claimed == 0
    }

    /// The record that a buyer's first purchase of `tokens` creates.
    pub open spec fn first(pool_id: Address, buyer: Address, tokens: nat) -> ReceiptView {
        ReceiptView { pool_id, buyer, amount_purchased: tokens, amount_claimed: 0, claimed: false }
    }

    /// This record after `tokens` more were bought.
    pub open spec fn add(self, tokens: nat) -> ReceiptView {
        ReceiptView { amount_purchased: self.amount_purchased + tokens, ..self }
    }

    /// This record after its one claim.
    pub open spec fn settle(self) -> ReceiptView {
        ReceiptView { amount_claimed: self.amount_purchased, claimed: true, ..self }
    }
}

/// The ledger entry of one buyer in one pool: what the buyer has bought so
/// far and whether it was handed over.
#[derive(Clone, Copy, Debug)]
pub struct PurchaseReceipt {
    pool: Address,
    buyer: Address,
    amount_purchased: u64,
    amount_claimed: u64,
    is_claimed: bool,
}

impl View for PurchaseReceipt {
    type V = ReceiptView;

    closed spec fn view(&self) -> ReceiptView {
        ReceiptView {
            pool_id: self.pool,
            buyer: self.buyer,
            amount_purchased: self.amount_purchased as nat,
            amount_claimed: self.amount_claimed as nat,
            claimed: self.is_claimed,
        }
    }
}

impl PurchaseReceipt {
    /// Holds of every record that exists.
    #[verifier::type_invariant]
    pub open spec fn valid(self) -> bool {
        self@.wf()
    }

    /// A record with the given contents, if they describe at least one
    /// token bought and an all-or-nothing claim.
    pub fn from_parts(
        pool: Address,
        buyer: Address,
        amount_purchased: u64,
        amount_claimed: u64,
        is_claimed: bool,
    ) -> (receipt: Option<PurchaseReceipt>)
        ensures
            receipt is Some <==> (ReceiptView {
                pool_id: pool,
                buyer,
                amount_purchased: amount_purchased as nat,
                amount_claimed: amount_claimed as nat,
                claimed: is_claimed,
            }).wf(),
            receipt is Some ==> receipt->Some_0@ == (ReceiptView {
                pool_id: pool,
                buyer,
                amount_purchased: amount_purchased as nat,
                amount_claimed: amount_claimed as nat,
                claimed: is_claimed,
            }),
    {
        let settled = if is_claimed {
            amount_claimed == amount_purchased
        } else {
            amount_claimed == 0
        };
        if amount_purchased > 0 && settled {
            Some(PurchaseReceipt { pool, buyer, amount_purchased, amount_claimed, is_claimed })
        } else {
            None
        }
    }

    /// The record that a buyer's first purchase of `tokens` creates.
    pub(crate) fn first(pool: Address, buyer: Address, tokens: u64) -> (receipt: PurchaseReceipt)
        requires
            tokens > 0,
        ensures
            receipt@ == ReceiptView::first(pool, buyer, tokens as nat),
    {
        PurchaseReceipt { pool, buyer, amount_purchased: tokens, amount_claimed: 0, is_claimed: false }
    }

    /// This record after `tokens` more were bought.
    pub(crate) fn add(&self, tokens: u64) -> (receipt: PurchaseReceipt)
        requires
            self@.amount_purchased + tokens <= u64::MAX,
            self@.claimed ==> tokens == 0,
        ensures
            receipt@ == self@.add(tokens as nat),
    {
        proof {
            use_type_invariant(self);
        }
        PurchaseReceipt { amount_purchased: self.amount_purchased + tokens, ..*self }
    }

    /// This record after its one claim.
    pub(crate) fn settle(&self) -> (receipt: PurchaseReceipt)
        ensures
            receipt@ == self@.settle(),
    {
        proof {
            use_type_invariant(self);
        }
        PurchaseReceipt { amount_claimed: self.amount_purchased, is_claimed: true, ..*self }
    }

    /// The pool that the record belongs to.
    pub fn pool(&self) -> (pool: Address)
        ensures
            pool == self@.pool_id,
    {
        self.pool
    }

    /// The buyer that the record belongs to.
    pub fn buyer(&self) -> (buyer: Address)
        ensures
            buyer == self@.buyer,
    {
        self.buyer
    }

    /// The tokens that the buyer has bought in the pool so far; at least one.
    pub fn amount_purchased(&self) -> (amount: u64)
        ensures
            amount == self@.amount_purchased,
            amount > 0,
    {
        proof {
            use_type_invariant(self);
        }
        self.amount_purchased
    }

    /// The tokens handed over to the buyer: all that was bought once claimed,
    /// none before.
    pub fn amount_claimed(&self) -> (amount: u64)
        ensures
            amount == self@.amount_claimed,
            amount == if self@.claimed {
                self@.amount_purchased
            } else {
                0
            },
    {
        proof {
            use_type_invariant(self);
        }
        self.amount_claimed
    }

    /// Whether the record's one claim has happened.
    pub fn is_claimed(&self) -> (claimed: bool)
        ensures
            claimed == self@.claimed,
    {
        self.is_claimed
    }
}

} // verus!
