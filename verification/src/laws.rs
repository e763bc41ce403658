//! What holds of every ledger, whatever calls were made on it.

use crate::errors::ErrorMessage;
use crate::instructions::buy_token::{
    lemma_purchase_keeps_invariants, lemma_purchase_outside_sale_is_refused,
};
use crate::instructions::claim_token::{
    lemma_claim_keeps_invariants, lemma_claim_of_settled_record_is_refused,
    lemma_second_claim_is_refused,
};
use crate::instructions::create_pool::{lemma_created_pool_is_valid, CreatePool};
use crate::ledger::{Intent, LedgerView, Request};
use crate::states::address::Address;
use crate::states::pool::PoolView;
use crate::sums::{lemma_sum_agree, lemma_sum_bounds_each, lemma_sum_insert, lemma_sum_remove};
use crate::transfer::Settlement;
use vstd::prelude::*;

verus! {

/// Opening a pool keeps the ledger well-formed.
pub proof fn lemma_create_pool_keeps_wf(ledger: LedgerView, ctx: CreatePool, now: nat)
    requires
        ledger.wf(),
    ensures
        ledger.after_create_pool(ctx, now).wf(),
{
    let next = ledger.after_create_pool(ctx, now);
    if ledger.creation_rejection(ctx, now) is None {
        lemma_created_pool_is_valid(ctx, now);
        assert forall|key: (Address, Address)| #[trigger]
            next.receipts.dom().contains(key) implies next.pools.dom().contains(key.0) by {
            assert(ledger.receipts.dom().contains(key));
        }
    }
}

/// A purchase keeps the ledger well-formed: in particular no pool ever
/// sells more than its supply, and no record stands for zero tokens.
pub proof fn lemma_buy_token_keeps_wf(
    ledger: LedgerView,
    pool_id: Address,
    buyer: Address,
    amount: nat,
    now: nat,
)
    requires
        ledger.wf(),
    ensures
        ledger.after_buy_token(pool_id, buyer, amount, now).wf(),
{
    let next = ledger.after_buy_token(pool_id, buyer, amount, now);
    if ledger.purchase(pool_id, buyer, amount, now) is Ok {
        assert(ledger.pools.dom().contains(pool_id));
        if ledger.receipts.dom().contains((pool_id, buyer)) {
            assert(ledger.receipts[(pool_id, buyer)].wf());
        }
        lemma_purchase_keeps_invariants(
            ledger.pools[pool_id],
            ledger.receipt(pool_id, buyer),
            buyer,
            amount,
            now,
        );
        assert forall|id: Address| #[trigger] next.pools.dom().contains(id) implies next.pools[id].wf()
            && next.pools[id].id == id by {
            if id != pool_id {
                assert(ledger.pools.dom().contains(id));
            }
        }
        assert forall|key: (Address, Address)| #[trigger]
            next.receipts.dom().contains(key) implies {
            &&& next.receipts[key].wf()
            &&& next.receipts[key].pool_id == key.0
            &&& next.receipts[key].buyer == key.1
            &&& next.pools.dom().contains(key.0)
        } by {
            if key != (pool_id, buyer) {
                assert(ledger.receipts.dom().contains(key));
            }
        }
    }
}

/// A claim keeps the ledger well-formed: a settled record has handed over
/// exactly what was bought.
pub proof fn lemma_claim_token_keeps_wf(ledger: LedgerView, pool_id: Address, buyer: Address, now: nat)
    requires
        ledger.wf(),
    ensures
        ledger.after_claim_token(pool_id, buyer, now).wf(),
{
    let next = ledger.after_claim_token(pool_id, buyer, now);
    if ledger.claim(pool_id, buyer, now) is Ok {
        assert(ledger.receipts.dom().contains((pool_id, buyer)));
        assert(ledger.receipts[(pool_id, buyer)].wf());
        lemma_claim_keeps_invariants(ledger.pools[pool_id], ledger.receipt(pool_id, buyer), now);
        assert forall|key: (Address, Address)| #[trigger]
            next.receipts.dom().contains(key) implies {
            &&& next.receipts[key].wf()
            &&& next.receipts[key].pool_id == key.0
            &&& next.receipts[key].buyer == key.1
            &&& next.pools.dom().contains(key.0)
        } by {
            if key != (pool_id, buyer) {
                assert(ledger.receipts.dom().contains(key));
            }
        }
    }
}

/// Opening a pool keeps every token accounted for: the new pool has sold
/// nothing, and nobody has a record in it yet.
pub proof fn lemma_create_pool_keeps_accounted(ledger: LedgerView, ctx: CreatePool, now: nat)
    requires
        ledger.wf(),
        ledger.accounted(),
    ensures
        ledger.after_create_pool(ctx, now).accounted(),
{
    let next = ledger.after_create_pool(ctx, now);
    if ledger.creation_rejection(ctx, now) is None {
        assert forall|id: Address| #[trigger] next.pools.dom().contains(id) implies next.purchased_in(
            id,
        ) == next.pools[id].supply_sold by {
            if id == ctx.id {
                assert forall|key: (Address, Address)| !next.records_of(id).contains(key) by {
                    if ledger.receipts.dom().contains(key) {
                        assert(ledger.pools.dom().contains(key.0));
                    }
                }
                assert(next.records_of(id) =~= Set::empty());
            } else {
                assert(ledger.pools.dom().contains(id));
                assert(next.purchased_in(id) == ledger.purchased_in(id));
            }
        }
    }
}

/// A purchase keeps every token accounted for: the pool's sold amount and
/// the buyer's record grow by the same tokens, and no other pool or record
/// changes.
pub proof fn lemma_buy_token_keeps_accounted(
    ledger: LedgerView,
    pool_id: Address,
    buyer: Address,
    amount: nat,
    now: nat,
)
    requires
        ledger.wf(),
        ledger.accounted(),
    ensures
        ledger.after_buy_token(pool_id, buyer, amount, now).accounted(),
{
    let next = ledger.after_buy_token(pool_id, buyer, amount, now);
    if ledger.purchase(pool_id, buyer, amount, now) is Ok {
        let after = ledger.purchase(pool_id, buyer, amount, now)->Ok_0;
        let key = (pool_id, buyer);
        let before_weight = |k: (Address, Address)| ledger.receipts[k].amount_purchased;
        let after_weight = |k: (Address, Address)| next.receipts[k].amount_purchased;
        if ledger.receipts.dom().contains(key) {
            assert(ledger.receipts[key].wf());
        }
        lemma_purchase_keeps_invariants(
            ledger.pools[pool_id],
            ledger.receipt(pool_id, buyer),
            buyer,
            amount,
            now,
        );
        assert forall|id: Address| #[trigger] next.pools.dom().contains(id) implies next.purchased_in(
            id,
        ) == next.pools[id].supply_sold by {
            if id == pool_id {
                let records = ledger.records_of(id);
                if ledger.receipts.dom().contains(key) {
                    assert(next.records_of(id) =~= records);
                    lemma_sum_remove(records, before_weight, key);
                    lemma_sum_remove(records, after_weight, key);
                    lemma_sum_agree(records.remove(key), before_weight, after_weight);
                } else {
                    assert(next.records_of(id) =~= records.insert(key));
                    lemma_sum_insert(records, after_weight, key);
                    lemma_sum_agree(records, before_weight, after_weight);
                }
            } else {
                assert(ledger.pools.dom().contains(id));
                assert(next.records_of(id) =~= ledger.records_of(id));
                lemma_sum_agree(ledger.records_of(id), before_weight, after_weight);
            }
        }
    }
}

/// A claim keeps every token accounted for: it changes nothing that was
/// bought or sold.
pub proof fn lemma_claim_token_keeps_accounted(
    ledger: LedgerView,
    pool_id: Address,
    buyer: Address,
    now: nat,
)
    requires
        ledger.wf(),
        ledger.accounted(),
    ensures
        ledger.after_claim_token(pool_id, buyer, now).accounted(),
{
    let next = ledger.after_claim_token(pool_id, buyer, now);
    if ledger.claim(pool_id, buyer, now) is Ok {
        let key = (pool_id, buyer);
        let before_weight = |k: (Address, Address)| ledger.receipts[k].amount_purchased;
        let after_weight = |k: (Address, Address)| next.receipts[k].amount_purchased;
        assert(ledger.receipts.dom().contains(key));
        assert(next.receipts.dom() =~= ledger.receipts.dom());
        assert forall|id: Address| #[trigger] next.pools.dom().contains(id) implies next.purchased_in(
            id,
        ) == next.pools[id].supply_sold by {
            assert(next.records_of(id) =~= ledger.records_of(id));
            lemma_sum_agree(ledger.records_of(id), before_weight, after_weight);
        }
    }
}

/// On a ledger no buyer's total can leave 64 bits while the pool's supply
/// fits in them: a buyer's record never says more than the pool has sold,
/// so a purchase within the remaining supply keeps the record within the
/// supply.
pub proof fn lemma_record_stays_within_supply(
    ledger: LedgerView,
    pool_id: Address,
    buyer: Address,
    tokens: nat,
)
    requires
        ledger.wf(),
        ledger.accounted(),
        ledger.pools.dom().contains(pool_id),
        ledger.receipts.dom().contains((pool_id, buyer)),
        tokens <= ledger.pools[pool_id].remaining(),
    ensures
        ledger.receipts[(pool_id, buyer)].amount_purchased <= ledger.pools[pool_id].supply_sold,
        ledger.receipts[(pool_id, buyer)].amount_purchased + tokens
            <= ledger.pools[pool_id].supply_total,
{
    lemma_sum_bounds_each(
        ledger.records_of(pool_id),
        |k: (Address, Address)| ledger.receipts[k].amount_purchased,
        (pool_id, buyer),
    );
}

/// Every call keeps the ledger well-formed, whether it is carried out or
/// refused.
pub proof fn lemma_step_keeps_wf(ledger: LedgerView, request: Request)
    requires
        ledger.wf(),
    ensures
        ledger.step(request).wf(),
        ledger.accounted() ==> ledger.step(request).accounted(),
{
    match request.intent {
        Intent::CreatePool { .. } => {
            if request.authorized {
                let ctx = request.intent.creation(request.caller);
                lemma_create_pool_keeps_wf(ledger, ctx, request.now as nat);
                if ledger.accounted() {
                    lemma_create_pool_keeps_accounted(ledger, ctx, request.now as nat);
                }
            }
        },
        Intent::BuyToken { pool_id, amount } => {
            lemma_buy_token_keeps_wf(ledger, pool_id, request.caller, amount as nat, request.now as nat);
            if ledger.accounted() {
                lemma_buy_token_keeps_accounted(
                    ledger,
                    pool_id,
                    request.caller,
                    amount as nat,
                    request.now as nat,
                );
            }
        },
        Intent::ClaimToken { pool_id } => {
            lemma_claim_token_keeps_wf(ledger, pool_id, request.caller, request.now as nat);
            if ledger.accounted() {
                lemma_claim_token_keeps_accounted(ledger, pool_id, request.caller, request.now as nat);
            }
        },
    }
}

/// At all times, for all pools and all records: whatever calls were made,
/// in whatever order and at whatever times, the ledger they leave is
/// well-formed and accounts for every token sold. Every pool has sold
/// between nothing and its supply; every record stands for at least one
/// token; and a claimed record has handed over exactly what was bought.
pub proof fn lemma_every_ledger_is_wf(history: Seq<Request>)
    ensures
        LedgerView::replay(history).wf(),
        LedgerView::replay(history).accounted(),
        forall|id: Address| #[trigger]
            LedgerView::replay(history).pools.dom().contains(id) ==> 0 <= LedgerView::replay(
                history,
            ).pools[id].supply_sold <= LedgerView::replay(history).pools[id].supply_total,
        forall|key: (Address, Address)| #[trigger]
            LedgerView::replay(history).receipts.dom().contains(key) ==> {
                &&& LedgerView::replay(history).receipts[key].amount_purchased > 0
                &&& LedgerView::replay(history).receipts[key].claimed ==> LedgerView::replay(
                    history,
                ).receipts[key].amount_claimed == LedgerView::replay(
                    history,
                ).receipts[key].amount_purchased
            },
    decreases history.len(),
{
    if history.len() > 0 {
        lemma_every_ledger_is_wf(history.drop_last());
        lemma_step_keeps_wf(LedgerView::replay(history.drop_last()), history.last());
    }
}

/// A purchase strictly before the sale starts or strictly after it ends is
/// refused with the error of that phase and changes nothing on the ledger.
pub proof fn lemma_buy_token_outside_sale(
    ledger: LedgerView,
    pool_id: Address,
    buyer: Address,
    amount: u64,
    now: u64,
)
    requires
        ledger.wf(),
        ledger.pools.dom().contains(pool_id),
    ensures
        now < ledger.pools[pool_id].start_time ==> ledger.buy_token_result(
            pool_id,
            buyer,
            amount,
            now,
        ) == Err::<Settlement, ErrorMessage>(ErrorMessage::SaleNotStarted),
        now > ledger.pools[pool_id].end_time ==> ledger.buy_token_result(pool_id, buyer, amount, now)
            == Err::<Settlement, ErrorMessage>(ErrorMessage::SaleEnded),
        now < ledger.pools[pool_id].start_time || now > ledger.pools[pool_id].end_time
            ==> ledger.after_buy_token(pool_id, buyer, amount as nat, now as nat) == ledger,
{
    lemma_purchase_outside_sale_is_refused(
        ledger.pools[pool_id],
        ledger.receipt(pool_id, buyer),
        buyer,
        amount as nat,
        now as nat,
    );
}

/// A buyer claims once: after a claim that succeeded, every later claim of
/// the same buyer in the same pool is refused with `AlreadyClaimed` and
/// changes nothing on the ledger.
pub proof fn lemma_claim_token_twice(
    ledger: LedgerView,
    pool_id: Address,
    buyer: Address,
    first: u64,
    second: u64,
)
    requires
        ledger.claim_token_result(pool_id, buyer, first) is Ok,
        first <= second,
    ensures
        ledger.after_claim_token(pool_id, buyer, first as nat).claim_token_result(
            pool_id,
            buyer,
            second,
        ) == Err::<Settlement, ErrorMessage>(ErrorMessage::AlreadyClaimed),
        ledger.after_claim_token(pool_id, buyer, first as nat).after_claim_token(
            pool_id,
            buyer,
            second as nat,
        ) == ledger.after_claim_token(pool_id, buyer, first as nat),
{
    lemma_second_claim_is_refused(
        ledger.pools[pool_id],
        ledger.receipt(pool_id, buyer),
        first as nat,
        second as nat,
    );
}

/// Once claims are open, a claim on a record that is already claimed is
/// refused with `AlreadyClaimed` and changes nothing on the ledger.
pub proof fn lemma_claim_token_of_settled_record(
    ledger: LedgerView,
    pool_id: Address,
    buyer: Address,
    now: u64,
)
    requires
        ledger.wf(),
        ledger.pools.dom().contains(pool_id),
        ledger.receipt(pool_id, buyer) is Some,
        ledger.receipt(pool_id, buyer)->Some_0.claimed,
        now >= ledger.pools[pool_id].claim_time,
    ensures
        ledger.claim_token_result(pool_id, buyer, now) == Err::<Settlement, ErrorMessage>(
            ErrorMessage::AlreadyClaimed,
        ),
        ledger.after_claim_token(pool_id, buyer, now as nat) == ledger,
{
    lemma_claim_of_settled_record_is_refused(
        ledger.pools[pool_id],
        ledger.receipt(pool_id, buyer)->Some_0,
        now as nat,
    );
}

/// Nothing on the ledger ever goes back: a call removes no pool and no
/// record, changes no pool's configuration, lowers no sold amount and no
/// purchased amount, and leaves every claimed record claimed.
pub proof fn lemma_step_never_goes_back(ledger: LedgerView, request: Request)
    requires
        ledger.wf(),
    ensures
        forall|id: Address| #[trigger]
            ledger.pools.dom().contains(id) ==> {
                &&& ledger.step(request).pools.dom().contains(id)
                &&& ledger.step(request).pools[id].supply_sold >= ledger.pools[id].supply_sold
                &&& ledger.step(request).pools[id] == (PoolView {
                    supply_sold: ledger.step(request).pools[id].supply_sold,
                    ..ledger.pools[id]
                })
            },
        forall|key: (Address, Address)| #[trigger]
            ledger.receipts.dom().contains(key) ==> {
                &&& ledger.step(request).receipts.dom().contains(key)
                &&& ledger.step(request).receipts[key].amount_purchased
                    >= ledger.receipts[key].amount_purchased
                &&& ledger.step(request).receipts[key].amount_claimed
                    >= ledger.receipts[key].amount_claimed
                &&& ledger.receipts[key].claimed ==> ledger.step(request).receipts[key].claimed
            },
{
    let next = ledger.step(request);
    match request.intent {
        Intent::CreatePool { .. } => {},
        Intent::BuyToken { pool_id, amount } => {
            if ledger.purchase(pool_id, request.caller, amount as nat, request.now as nat) is Ok {
                if ledger.receipts.dom().contains((pool_id, request.caller)) {
                    assert(ledger.receipts[(pool_id, request.caller)].wf());
                }
                lemma_purchase_keeps_invariants(
                    ledger.pools[pool_id],
                    ledger.receipt(pool_id, request.caller),
                    request.caller,
                    amount as nat,
                    request.now as nat,
                );
            }
        },
        Intent::ClaimToken { pool_id } => {
            if ledger.claim(pool_id, request.caller, request.now as nat) is Ok {
                assert(ledger.receipts[(pool_id, request.caller)].wf());
                lemma_claim_keeps_invariants(
                    ledger.pools[pool_id],
                    ledger.receipt(pool_id, request.caller),
                    request.now as nat,
                );
            }
        },
    }
}

} // verus!
