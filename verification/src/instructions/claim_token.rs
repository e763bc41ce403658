//! Claiming tokens: the rules of the one claim of a record.

use crate::errors::ErrorMessage;
use crate::events::buy_token_event::BuyTokenEvent;
use crate::states::address::Address;
use crate::states::pool::{Pool, PoolView};
use crate::states::purchase_receipt::{PurchaseReceipt, ReceiptView};
use crate::transfer::{Party, Settlement, TransferIntent};
use vstd::prelude::*;

verus! {

/// The outcome of a claim at `now`, given the pool and the record that the
/// buyer has in it: the record after the claim, or the first rule broken.
/// Claims must be open; there must be a record, with something bought; and
/// the record must not be settled yet.
pub open spec fn claim(pool: PoolView, receipt: Option<ReceiptView>, now: nat) -> Result<
    ReceiptView,
    ErrorMessage,
> {
    if now < pool.claim_time {
        Err(ErrorMessage::ClaimNotStarted)
    } else {
        match receipt {
            None => Err(ErrorMessage::NothingToClaim),
            Some(record) => if record.amount_purchased == 0 {
                Err(ErrorMessage::NothingToClaim)
            } else if record.claimed {
                Err(ErrorMessage::AlreadyClaimed)
            } else {
                Ok(record.settle())
            },
        }
    }
}

/// What a successful claim hands back: the tokens bought move from the
/// pool's custody to the buyer.
pub open spec fn claim_settlement(pool: PoolView, buyer: Address, tokens: u64, now: u64) -> Settlement {
    Settlement {
        tokens,
        transfer: TransferIntent {
            asset: pool.sale_asset,
            from: Party::PoolCustody(pool.id),
            to: Party::Buyer(buyer),
            amount: tokens,
        },
        event: BuyTokenEvent {
            buyer,
            pool: pool.id,
            currency_amount: 0,
            tokens_received: tokens,
            timestamp: now,
        },
    }
}

/// A claim is refused with `ClaimNotStarted` exactly before the pool's
/// claim time; in particular it never is in the `Claimable` phase, and
/// always is while the pool is `Pending` or `Closed`.
pub proof fn lemma_claim_by_phase(pool: PoolView, receipt: Option<ReceiptView>, now: nat)
    requires
        pool.wf(),
    ensures
        claim(pool, receipt, now) == Err::<ReceiptView, ErrorMessage>(ErrorMessage::ClaimNotStarted)
            <==> now < pool.claim_time,
        pool.phase(now) is Claimable ==> claim(pool, receipt, now) != Err::<
            ReceiptView,
            ErrorMessage,
        >(ErrorMessage::ClaimNotStarted),
        pool.phase(now) is Pending || pool.phase(now) is Closed ==> claim(pool, receipt, now)
            == Err::<ReceiptView, ErrorMessage>(ErrorMessage::ClaimNotStarted),
{
}

/// Once claims are open, a claim on a record that is already settled is
/// refused with `AlreadyClaimed`.
pub proof fn lemma_claim_of_settled_record_is_refused(pool: PoolView, record: ReceiptView, now: nat)
    requires
        record.wf(),
        record.claimed,
        now >= pool.claim_time,
    ensures
        claim(pool, Some(record), now) == Err::<ReceiptView, ErrorMessage>(
            ErrorMessage::AlreadyClaimed,
        ),
{
}

/// A settled record is never claimed again, at whatever time the claim
/// comes.
pub proof fn lemma_settled_record_is_never_claimed(pool: PoolView, record: ReceiptView, now: nat)
    requires
        record.claimed,
    ensures
        claim(pool, Some(record), now) is Err,
{
}

/// A record can be claimed once: after a successful claim, every later
/// claim on the record it left is refused with `AlreadyClaimed`.
pub proof fn lemma_second_claim_is_refused(
    pool: PoolView,
    receipt: Option<ReceiptView>,
    first: nat,
    second: nat,
)
    requires
        claim(pool, receipt, first) is Ok,
        first <= second,
    ensures
        claim(pool, Some(claim(pool, receipt, first)->Ok_0), second) == Err::<
            ReceiptView,
            ErrorMessage,
        >(ErrorMessage::AlreadyClaimed),
{
}

/// A successful claim settles a valid record in full and leaves it valid:
/// everything bought is handed over, and what was bought does not change.
pub proof fn lemma_claim_keeps_invariants(pool: PoolView, receipt: Option<ReceiptView>, now: nat)
    requires
        receipt is Some ==> receipt->Some_0.wf(),
        claim(pool, receipt, now) is Ok,
    ensures
        ({
            let after = claim(pool, receipt, now)->Ok_0;
            &&& receipt is Some
            &&& !receipt->Some_0.claimed
            &&& after.wf()
            &&& after.claimed
            &&& after.amount_claimed == after.amount_purchased
            &&& after.amount_purchased == receipt->Some_0.amount_purchased
            &&& after.pool_id == receipt->Some_0.pool_id
            &&& after.buyer == receipt->Some_0.buyer
        }),
{
}

/// The mathematical content of a claim context.
pub struct ClaimTokenView {
    pub buyer: Address,
    pub pool: PoolView,
    pub receipt: Option<ReceiptView>,
}

impl ClaimTokenView {
    /// The pool and the record are valid, and the record, where there is
    /// one, is the one of this buyer in this pool.
    pub open spec fn wf(self) -> bool {
        &&& self.pool.wf()
        &&& self.receipt matches Some(record) ==> {
            &&& record.wf()
            &&& record.pool_id == self.pool.id
            &&& record.buyer == self.buyer
        }
    }
}

/// Everything a claim works on: the buyer, the pool, and the record that
/// the buyer has in the pool, if any. After a successful claim it holds the
/// record as it is to be stored.
#[derive(Clone, Copy, Debug)]
pub struct ClaimToken {
    buyer: Address,
    pool_account: Pool,
    buyer_account: Option<PurchaseReceipt>,
}

impl View for ClaimToken {
    type V = ClaimTokenView;

    closed spec fn view(&self) -> ClaimTokenView {
        ClaimTokenView {
            buyer: self.buyer,
            pool: self.pool_account@,
            receipt: match self.buyer_account {
                Some(record) => Some(record@),
                None => None,
            },
        }
    }
}

impl ClaimToken {
    /// Holds of every claim context that exists.
    #[verifier::type_invariant]
    pub open spec fn valid(self) -> bool {
        self@.wf()
    }

    /// The context of a claim by `buyer` in `pool_account`, unless
    /// `buyer_account` is the record of another buyer or another pool.
    pub fn new(buyer: Address, pool_account: Pool, buyer_account: Option<PurchaseReceipt>) -> (ctx:
        Option<ClaimToken>)
        ensures
            ctx is Some <==> (buyer_account matches Some(record) ==> record@.pool_id
                == pool_account@.id && record@.buyer == buyer),
            ctx is Some ==> ctx->Some_0@ == (ClaimTokenView {
                buyer,
                pool: pool_account@,
                receipt: match buyer_account {
                    Some(record) => Some(record@),
                    None => None,
                },
            }),
    {
        proof {
            use_type_invariant(&pool_account);
        }
        match buyer_account {
            Some(record) => {
                proof {
                    use_type_invariant(&record);
                }
                if record.pool() == pool_account.id() && record.buyer() == buyer {
                    Some(ClaimToken { buyer, pool_account, buyer_account })
                } else {
                    None
                }
            },
            None => Some(ClaimToken { buyer, pool_account, buyer_account }),
        }
    }

    /// The context of `buyer` in `pool_account`, with the record that is
    /// known to be theirs.
    pub(crate) fn assemble(
        buyer: Address,
        pool_account: Pool,
        buyer_account: Option<PurchaseReceipt>,
    ) -> (ctx: ClaimToken)
        requires
            buyer_account matches Some(record) ==> record@.pool_id == pool_account@.id
                && record@.buyer == buyer,
        ensures
            ctx@ == (ClaimTokenView {
                buyer,
                pool: pool_account@,
                receipt: match buyer_account {
                    Some(record) => Some(record@),
                    None => None,
                },
            }),
    {
        proof {
            use_type_invariant(&pool_account);
            if let Some(record) = buyer_account {
                use_type_invariant(&record);
            }
        }
        ClaimToken { buyer, pool_account, buyer_account }
    }

    /// The buyer.
    pub fn buyer(&self) -> (buyer: Address)
        ensures
            buyer == self@.buyer,
    {
        self.buyer
    }

    /// The pool.
    pub fn pool_account(&self) -> (pool: Pool)
        ensures
            pool@ == self@.pool,
    {
        self.pool_account
    }

    /// The buyer's record in the pool, as it is to be stored.
    pub fn buyer_account(&self) -> (receipt: Option<PurchaseReceipt>)
        ensures
            receipt is Some <==> self@.receipt is Some,
            receipt is Some ==> receipt->Some_0@ == self@.receipt->Some_0,
    {
        self.buyer_account
    }
}

/// Applies a claim at `now` to the record in `ctx`.
///
/// On success the record is settled in full and the transfer of the tokens
/// is handed back; on any error `ctx` is left as it was. The pool is never
/// changed by a claim.
pub fn process_claim_token(ctx: &mut ClaimToken, now: u64) -> (settled: Result<
    Settlement,
    ErrorMessage,
>)
    ensures
        match claim(old(ctx)@.pool, old(ctx)@.receipt, now as nat) {
            Ok(after) => {
                &&& settled == Ok::<Settlement, ErrorMessage>(
                    claim_settlement(
                        old(ctx)@.pool,
                        old(ctx)@.buyer,
                        after.amount_purchased as u64,
                        now,
                    ),
                )
                &&& final(ctx)@ == (ClaimTokenView { receipt: Some(after), ..old(ctx)@ })
            },
            Err(error) => {
                &&& settled == Err::<Settlement, ErrorMessage>(error)
                &&& *final(ctx) == *old(ctx)
            },
        },
{
    proof {
        use_type_invariant(&*ctx);
    }
    let pool = ctx.pool_account;
    let buyer = ctx.buyer;
    if now < pool.claim_time() {
        return Err(ErrorMessage::ClaimNotStarted);
    }
    let record = match ctx.buyer_account {
        None => {
            return Err(ErrorMessage::NothingToClaim);
        },
        Some(record) => record,
    };
    if record.is_claimed() {
        return Err(ErrorMessage::AlreadyClaimed);
    }
    let tokens = record.amount_purchased();
    ctx.buyer_account = Some(record.settle());
    Ok(
        Settlement {
            tokens,
            transfer: TransferIntent {
                asset: pool.sale_asset(),
                from: Party::PoolCustody(pool.id()),
                to: Party::Buyer(buyer),
                amount: tokens,
            },
            event: BuyTokenEvent {
                buyer,
                pool: pool.id(),
                currency_amount: 0,
                tokens_received: tokens,
                timestamp: now,
            },
        },
    )
}

} // verus!
