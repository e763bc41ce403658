//! Buying tokens: the rules of a purchase and what it leaves behind.

use crate::errors::ErrorMessage;
use crate::events::buy_token_event::BuyTokenEvent;
use crate::states::address::Address;
use crate::states::pool::{Pool, PoolView};
use crate::states::purchase_receipt::{PurchaseReceipt, ReceiptView};
use crate::transfer::{Party, Settlement, TransferIntent};
use crate::utils::buy_token::{calculate_buy_token, conversion};
use vstd::prelude::*;

verus! {

/// What a successful purchase leaves behind: the pool and the buyer's
/// record after it, and the tokens it bought.
pub struct Purchase {
    pub pool: PoolView,
    pub receipt: ReceiptView,
    pub tokens: nat,
}

/// The outcome of a purchase of `amount` units of currency by `buyer` at
/// `now`, given the pool and the record that the buyer has in it so far.
///
/// The rules are tried in this order, and the first one broken decides:
/// the sale must have started and must not have ended; something must be
/// paid; the payment must convert into tokens without overflow; the pool
/// must have that many tokens left (a request is never filled in part); a
/// first purchase must buy at least one token; a settled record takes no
/// further tokens; and the buyer's total must stay within 64 bits.
pub open spec fn purchase(
    pool: PoolView,
    receipt: Option<ReceiptView>,
    buyer: Address,
    amount: nat,
    now: nat,
) -> Result<Purchase, ErrorMessage> {
    if now < pool.start_time {
        Err(ErrorMessage::SaleNotStarted)
    } else if now > pool.end_time {
        Err(ErrorMessage::SaleEnded)
    } else if amount == 0 {
        Err(ErrorMessage::InvalidAmount)
    } else {
        match conversion(amount, pool.rate, pool.rate_decimals) {
            Err(error) => Err(error),
            Ok(bought) => {
                let tokens = bought as nat;
                if tokens > pool.remaining() {
                    Err(ErrorMessage::SupplyExceeded)
                } else {
                    match receipt {
                        None => if tokens == 0 {
                            Err(ErrorMessage::InvalidAmount)
                        } else {
                            Ok(
                                Purchase {
                                    pool: pool.sell(tokens),
                                    receipt: ReceiptView::first(pool.id, buyer, tokens),
                                    tokens,
                                },
                            )
                        },
                        Some(record) => if record.claimed && tokens > 0 {
                            Err(ErrorMessage::AlreadyClaimed)
                        } else if record.amount_purchased + tokens > u64::MAX {
                            Err(ErrorMessage::ArithmeticOverflow)
                        } else {
                            Ok(
                                Purchase {
                                    pool: pool.sell(tokens),
                                    receipt: record.add(tokens),
                                    tokens,
                                },
                            )
                        },
                    }
                }
            },
        }
    }
}

/// What a successful purchase hands back: the currency paid moves from the
/// buyer to the pool's treasury.
pub open spec fn purchase_settlement(
    pool: PoolView,
    buyer: Address,
    amount: u64,
    tokens: u64,
    now: u64,
) -> Settlement {
    Settlement {
        tokens,
        transfer: TransferIntent {
            asset: pool.currency_asset,
            from: Party::Buyer(buyer),
            to: Party::Treasury(pool.id),
            amount,
        },
        event: BuyTokenEvent {
            buyer,
            pool: pool.id,
            currency_amount: amount,
            tokens_received: tokens,
            timestamp: now,
        },
    }
}

/// A purchase strictly before the sale starts or strictly after it ends is
/// refused with the error of that phase, whatever is paid and whatever the
/// pool has left.
pub proof fn lemma_purchase_outside_sale_is_refused(
    pool: PoolView,
    receipt: Option<ReceiptView>,
    buyer: Address,
    amount: nat,
    now: nat,
)
    requires
        pool.wf(),
    ensures
        now < pool.start_time ==> purchase(pool, receipt, buyer, amount, now) == Err::<
            Purchase,
            ErrorMessage,
        >(ErrorMessage::SaleNotStarted),
        now > pool.end_time ==> purchase(pool, receipt, buyer, amount, now) == Err::<
            Purchase,
            ErrorMessage,
        >(ErrorMessage::SaleEnded),
{
}

/// A purchase gets past the clock exactly in the `Active` phase: it is
/// refused with `SaleNotStarted` exactly while the pool is `Pending`, and
/// with `SaleEnded` exactly once the pool is `Closed` or `Claimable`.
pub proof fn lemma_purchase_by_phase(
    pool: PoolView,
    receipt: Option<ReceiptView>,
    buyer: Address,
    amount: nat,
    now: nat,
)
    requires
        pool.wf(),
    ensures
        purchase(pool, receipt, buyer, amount, now) == Err::<Purchase, ErrorMessage>(
            ErrorMessage::SaleNotStarted,
        ) <==> pool.phase(now) is Pending,
        purchase(pool, receipt, buyer, amount, now) == Err::<Purchase, ErrorMessage>(
            ErrorMessage::SaleEnded,
        ) <==> pool.phase(now) is Closed || pool.phase(now) is Claimable,
        purchase(pool, receipt, buyer, amount, now) is Ok ==> pool.phase(now) is Active,
{
}

/// A successful purchase keeps every invariant of the pool and of the
/// record: no more than the supply is sold, the record stands for at least
/// one token and its claim stays all or nothing. The sold amount and the
/// buyer's total grow by exactly the tokens bought, and nothing else in the
/// pool or the record changes.
pub proof fn lemma_purchase_keeps_invariants(
    pool: PoolView,
    receipt: Option<ReceiptView>,
    buyer: Address,
    amount: nat,
    now: nat,
)
    requires
        pool.wf(),
        receipt is Some ==> receipt->Some_0.wf(),
        purchase(pool, receipt, buyer, amount, now) is Ok,
    ensures
        ({
            let after = purchase(pool, receipt, buyer, amount, now)->Ok_0;
            &&& after.pool.wf()
            &&& after.receipt.wf()
            &&& after.pool == pool.sell(after.tokens)
            &&& after.pool.supply_sold == pool.supply_sold + after.tokens
            &&& after.pool.supply_sold <= pool.supply_total
            &&& after.tokens == crate::utils::buy_token::tokens_for(
                amount,
                pool.rate,
                pool.rate_decimals,
            )
            &&& after.receipt.amount_purchased == after.tokens + (match receipt {
                Some(record) => record.amount_purchased,
                None => 0,
            })
            &&& receipt is Some ==> after.receipt.claimed == receipt->Some_0.claimed
            &&& receipt is None ==> !after.receipt.claimed
        }),
{
}

/// The mathematical content of a purchase context.
pub struct BuyTokenView {
    pub buyer: Address,
    pub pool: PoolView,
    pub receipt: Option<ReceiptView>,
}

impl BuyTokenView {
    /// The pool and the record are valid, and the record, where there is
    /// one, is the one of this buyer in this pool.
    pub open spec fn wf(self) -> bool {
        &&& self.pool.wf()
        &&& self.receipt matches Some(record) ==> {
            &&& record.wf()
            &&& record.pool_id == self.pool.id
            &&& record.buyer == self.buyer
        }
    }
}

/// Everything a purchase works on: the buyer, the pool, and the record
/// that the buyer has in the pool, if any. After a successful purchase it
/// holds the pool and the record as they are to be stored.
#[derive(Clone, Copy, Debug)]
pub struct BuyToken {
    buyer: Address,
    pool_account: Pool,
    buyer_account: Option<PurchaseReceipt>,
}

impl View for BuyToken {
    type V = BuyTokenView;

    closed spec fn view(&self) -> BuyTokenView {
        BuyTokenView {
            buyer: self.buyer,
            pool: self.pool_account@,
            receipt: match self.buyer_account {
                Some(record) => Some(record@),
                None => None,
            },
        }
    }
}

impl BuyToken {
    /// Holds of every purchase context that exists.
    #[verifier::type_invariant]
    pub open spec fn valid(self) -> bool {
        self@.wf()
    }

    /// The context of a purchase by `buyer` in `pool_account`, unless
    /// `buyer_account` is the record of another buyer or another pool.
    pub fn new(buyer: Address, pool_account: Pool, buyer_account: Option<PurchaseReceipt>) -> (ctx:
        Option<BuyToken>)
        ensures
            ctx is Some <==> (buyer_account matches Some(record) ==> record@.pool_id
                == pool_account@.id && record@.buyer == buyer),
            ctx is Some ==> ctx->Some_0@ == (BuyTokenView {
                buyer,
                pool: pool_account@,
                receipt: match buyer_account {
                    Some(record) => Some(record@),
                    None => None,
                },
            }),
    {
        proof {
            use_type_invariant(&pool_account);
        }
        match buyer_account {
            Some(record) => {
                proof {
                    use_type_invariant(&record);
                }
                if record.pool() == pool_account.id() && record.buyer() == buyer {
                    Some(BuyToken { buyer, pool_account, buyer_account })
                } else {
                    None
                }
            },
            None => Some(BuyToken { buyer, pool_account, buyer_account }),
        }
    }

    /// The context of `buyer` in `pool_account`, with the record that is
    /// known to be theirs.
    pub(crate) fn assemble(
        buyer: Address,
        pool_account: Pool,
        buyer_account: Option<PurchaseReceipt>,
    ) -> (ctx: BuyToken)
        requires
            buyer_account matches Some(record) ==> record@.pool_id == pool_account@.id
                && record@.buyer == buyer,
        ensures
            ctx@ == (BuyTokenView {
                buyer,
                pool: pool_account@,
                receipt: match buyer_account {
                    Some(record) => Some(record@),
                    None => None,
                },
            }),
    {
        proof {
            use_type_invariant(&pool_account);
            if let Some(record) = buyer_account {
                use_type_invariant(&record);
            }
        }
        BuyToken { buyer, pool_account, buyer_account }
    }

    /// The buyer.
    pub fn buyer(&self) -> (buyer: Address)
        ensures
            buyer == self@.buyer,
    {
        self.buyer
    }

    /// The pool, as it is to be stored.
    pub fn pool_account(&self) -> (pool: Pool)
        ensures
            pool@ == self@.pool,
    {
        self.pool_account
    }

    /// The buyer's record in the pool, as it is to be stored.
    pub fn buyer_account(&self) -> (receipt: Option<PurchaseReceipt>)
        ensures
            receipt is Some <==> self@.receipt is Some,
            receipt is Some ==> receipt->Some_0@ == self@.receipt->Some_0,
    {
        self.buyer_account
    }
}

/// Applies a purchase of `amount` units of currency at `now` to the pool and
/// the record in `ctx`.
///
/// On success both are updated together and the transfer of the payment is
/// handed back; on any error `ctx` is left as it was.
pub fn process_buy_token(ctx: &mut BuyToken, amount: u64, now: u64) -> (settled: Result<
    Settlement,
    ErrorMessage,
>)
    ensures
        match purchase(old(ctx)@.pool, old(ctx)@.receipt, old(ctx)@.buyer, amount as nat, now as nat) {
            Ok(after) => {
                &&& settled == Ok::<Settlement, ErrorMessage>(
                    purchase_settlement(
                        old(ctx)@.pool,
                        old(ctx)@.buyer,
                        amount,
                        after.tokens as u64,
                        now,
                    ),
                )
                &&& final(ctx)@ == (BuyTokenView {
                    buyer: old(ctx)@.buyer,
                    pool: after.pool,
                    receipt: Some(after.receipt),
                })
            },
            Err(error) => {
                &&& settled == Err::<Settlement, ErrorMessage>(error)
                &&& *final(ctx) == *old(ctx)
            },
        },
{
    proof {
        use_type_invariant(&*ctx);
    }
    let pool = ctx.pool_account;
    let buyer = ctx.buyer;
    if now < pool.start_time() {
        return Err(ErrorMessage::SaleNotStarted);
    }
    if now > pool.end_time() {
        return Err(ErrorMessage::SaleEnded);
    }
    if amount == 0 {
        return Err(ErrorMessage::InvalidAmount);
    }
    let tokens = match calculate_buy_token(amount as u128, pool.rate() as u128, pool.rate_decimals()) {
        Ok(tokens) => tokens,
        Err(error) => {
            return Err(error);
        },
    };
    if tokens > pool.remaining() {
        return Err(ErrorMessage::SupplyExceeded);
    }
    let receipt = match ctx.buyer_account {
        None => {
            if tokens == 0 {
                return Err(ErrorMessage::InvalidAmount);
            }
            PurchaseReceipt::first(pool.id(), buyer, tokens)
        },
        Some(record) => {
            if record.is_claimed() && tokens > 0 {
                return Err(ErrorMessage::AlreadyClaimed);
            }
            if record.amount_purchased() > u64::MAX - tokens {
                return Err(ErrorMessage::ArithmeticOverflow);
            }
            record.add(tokens)
        },
    };
    ctx.pool_account = pool.sell(tokens);
    ctx.buyer_account = Some(receipt);
    Ok(
        Settlement {
            tokens,
            transfer: TransferIntent {
                asset: pool.currency_asset(),
                from: Party::Buyer(buyer),
                to: Party::Treasury(pool.id()),
                amount,
            },
            event: BuyTokenEvent {
                buyer,
                pool: pool.id(),
                currency_amount: amount,
                tokens_received: tokens,
                timestamp: now,
            },
        },
    )
}

} // verus!
