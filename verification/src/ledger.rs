//! The ledger: a keyed store of pools and purchase records, and the
//! operations that load, decide and store.

use crate::errors::ErrorMessage;
use crate::events::pool_created_event::PoolCreatedEvent;
use crate::instructions::buy_token::{
    process_buy_token, purchase, purchase_settlement, BuyToken, Purchase,
};
use crate::instructions::claim_token::{claim, claim_settlement, process_claim_token, ClaimToken};
use crate::instructions::create_pool::{process_create_pool, CreatePool};
use crate::keyed::{
    distinct_keys, entries_map, lemma_entry_at, lemma_key_absent, lemma_key_present,
    lemma_push_entry, lemma_update_entry,
};
use crate::states::address::Address;
use crate::states::pool::{Pool, PoolView};
use crate::states::purchase_receipt::{PurchaseReceipt, ReceiptView};
use crate::laws::{lemma_buy_token_keeps_accounted, lemma_claim_token_keeps_accounted};
use crate::sums::sum_over;
use crate::transfer::{Settlement, TransferIntent};
use vstd::prelude::*;

verus! {

/// What a caller asks of the ledger.
#[derive(Clone, Copy, Debug, PartialEq, Eq)]
pub enum Intent {
    /// Open a pool with this configuration; the caller becomes its creator.
    CreatePool {
        id: Address,
        currency_asset: Address,
        sale_asset: Address,
        start_time: u64,
        end_time: u64,
        claim_time: u64,
        supply_total: u64,
        rate: u64,
        rate_decimals: u8,
    },
    /// Buy tokens of the pool `pool_id` for `amount` units of currency.
    BuyToken { pool_id: Address, amount: u64 },
    /// Claim the tokens that the caller has bought in the pool `pool_id`.
    ClaimToken { pool_id: Address },
}

impl Intent {
    /// The request to open a pool that this intent stands for when it comes
    /// from `caller`.
    pub open spec fn creation(self, caller: Address) -> CreatePool
        recommends
            self is CreatePool,
    {
        CreatePool {
            creator: caller,
            id: self->id,
            currency_asset: self->currency_asset,
            sale_asset: self->sale_asset,
            start_time: self->start_time,
            end_time: self->end_time,
            claim_time: self->claim_time,
            supply_total: self->supply_total,
            rate: self->rate,
            rate_decimals: self->rate_decimals,
        }
    }
}

/// What the ledger hands back for an intent that it has carried out.
#[derive(Clone, Copy, Debug, PartialEq, Eq)]
pub enum Outcome {
    PoolCreated(PoolCreatedEvent),
    Purchased(Settlement),
    Claimed(Settlement),
}

impl Outcome {
    /// The transfer that this outcome asks for: none for a new pool, the
    /// payment for a purchase, the tokens for a claim.
    pub open spec fn transfer_intent(self) -> Option<TransferIntent> {
        match self {
            Outcome::PoolCreated(_) => None,
            Outcome::Purchased(settlement) => Some(settlement.transfer),
            Outcome::Claimed(settlement) => Some(settlement.transfer),
        }
    }

    /// The transfer to carry out, if any.
    pub fn transfer(&self) -> (transfer: Option<TransferIntent>)
        ensures
            transfer == self.transfer_intent(),
    {
        match self {
            Outcome::PoolCreated(_) => None,
            Outcome::Purchased(settlement) => Some(settlement.transfer),
            Outcome::Claimed(settlement) => Some(settlement.transfer),
        }
    }
}

/// One call of the ledger: the intent, the authenticated caller, whether
/// the caller may create pools, and the time of the call.
pub struct Request {
    pub intent: Intent,
    pub caller: Address,
    pub authorized: bool,
    pub now: u64,
}

/// The mathematical content of a ledger: its pools by identifier, and its
/// purchase records by pool and buyer.
pub struct LedgerView {
    pub pools: Map<Address, PoolView>,
    pub receipts: Map<(Address, Address), ReceiptView>,
}

impl LedgerView {
    /// Every pool and every record is valid and stored under its own key,
    /// and every record belongs to a pool of the ledger.
    pub open spec fn wf(self) -> bool {
        &&& forall|id: Address| #[trigger]
            self.pools.dom().contains(id) ==> self.pools[id].wf() && self.pools[id].id == id
        &&& forall|key: (Address, Address)| #[trigger]
            self.receipts.dom().contains(key) ==> {
                &&& self.receipts[key].wf()
                &&& self.receipts[key].pool_id == key.0
                &&& self.receipts[key].buyer == key.1
                &&& self.pools.dom().contains(key.0)
            }
    }

    /// The keys of the records that buyers have in the pool `pool_id`.
    pub open spec fn records_of(self, pool_id: Address) -> Set<(Address, Address)> {
        self.receipts.dom().filter(|key: (Address, Address)| key.0 == pool_id)
    }

    /// The tokens that all buyers together have bought in the pool
    /// `pool_id`, by their records.
    pub open spec fn purchased_in(self, pool_id: Address) -> nat {
        sum_over(
            self.records_of(pool_id),
            |key: (Address, Address)| self.receipts[key].amount_purchased,
        )
    }

    /// Every token sold is accounted for: what a pool has sold is the sum
    /// of what its buyers' records say they bought.
    pub open spec fn accounted(self) -> bool {
        &&& self.receipts.dom().finite()
        &&& forall|id: Address| #[trigger]
            self.pools.dom().contains(id) ==> self.purchased_in(id) == self.pools[id].supply_sold
    }

    /// The ledger with no pool and no record.
    pub open spec fn empty() -> LedgerView {
        LedgerView { pools: Map::empty(), receipts: Map::empty() }
    }

    /// The record of `buyer` in the pool `pool_id`, if there is one.
    pub open spec fn receipt(self, pool_id: Address, buyer: Address) -> Option<ReceiptView> {
        if self.receipts.dom().contains((pool_id, buyer)) {
            Some(self.receipts[(pool_id, buyer)])
        } else {
            None
        }
    }

    /// Why a request to open a pool is refused at `now`, if it is: a timing
    /// rule is broken, or the identifier is taken.
    pub open spec fn creation_rejection(self, ctx: CreatePool, now: nat) -> Option<ErrorMessage> {
        match ctx.rejection(now) {
            Some(error) => Some(error),
            None => if self.pools.dom().contains(ctx.id) {
                Some(ErrorMessage::PoolAlreadyExists)
            } else {
                None
            },
        }
    }

    /// The ledger after a request to open a pool: with the new pool if the
    /// request is accepted, unchanged if it is refused.
    pub open spec fn after_create_pool(self, ctx: CreatePool, now: nat) -> LedgerView {
        if self.creation_rejection(ctx, now) is None {
            LedgerView { pools: self.pools.insert(ctx.id, ctx.pool()), ..self }
        } else {
            self
        }
    }

    /// The outcome of a purchase in the pool `pool_id`: that of the
    /// purchase rules on the pool and the buyer's record, or `PoolNotFound`.
    pub open spec fn purchase(self, pool_id: Address, buyer: Address, amount: nat, now: nat) -> Result<
        Purchase,
        ErrorMessage,
    > {
        if self.pools.dom().contains(pool_id) {
            purchase(self.pools[pool_id], self.receipt(pool_id, buyer), buyer, amount, now)
        } else {
            Err(ErrorMessage::PoolNotFound)
        }
    }

    /// The ledger after a purchase: the pool and the buyer's record are
    /// replaced together if the purchase succeeds, nothing changes if not.
    pub open spec fn after_buy_token(
        self,
        pool_id: Address,
        buyer: Address,
        amount: nat,
        now: nat,
    ) -> LedgerView {
        match self.purchase(pool_id, buyer, amount, now) {
            Ok(after) => LedgerView {
                pools: self.pools.insert(pool_id, after.pool),
                receipts: self.receipts.insert((pool_id, buyer), after.receipt),
            },
            Err(_) => self,
        }
    }

    /// The outcome of a claim in the pool `pool_id`: that of the claim
    /// rules on the pool and the buyer's record, or `PoolNotFound`.
    pub open spec fn claim(self, pool_id: Address, buyer: Address, now: nat) -> Result<
        ReceiptView,
        ErrorMessage,
    > {
        if self.pools.dom().contains(pool_id) {
            claim(self.pools[pool_id], self.receipt(pool_id, buyer), now)
        } else {
            Err(ErrorMessage::PoolNotFound)
        }
    }

    /// The ledger after a claim: the buyer's record is settled if the claim
    /// succeeds, nothing changes if not.
    pub open spec fn after_claim_token(self, pool_id: Address, buyer: Address, now: nat) -> LedgerView {
        match self.claim(pool_id, buyer, now) {
            Ok(after) => LedgerView {
                receipts: self.receipts.insert((pool_id, buyer), after),
                ..self
            },
            Err(_) => self,
        }
    }

    /// What a request to open a pool hands back at `now`.
    pub open spec fn create_pool_result(self, ctx: CreatePool, now: u64) -> Result<
        PoolCreatedEvent,
        ErrorMessage,
    > {
        match self.creation_rejection(ctx, now as nat) {
            Some(error) => Err(error),
            None => Ok(pool_created(ctx, now)),
        }
    }

    /// What a purchase hands back at `now`.
    pub open spec fn buy_token_result(
        self,
        pool_id: Address,
        buyer: Address,
        amount: u64,
        now: u64,
    ) -> Result<Settlement, ErrorMessage> {
        match self.purchase(pool_id, buyer, amount as nat, now as nat) {
            Ok(after) => Ok(
                purchase_settlement(self.pools[pool_id], buyer, amount, after.tokens as u64, now),
            ),
            Err(error) => Err(error),
        }
    }

    /// What a claim hands back at `now`.
    pub open spec fn claim_token_result(self, pool_id: Address, buyer: Address, now: u64) -> Result<
        Settlement,
        ErrorMessage,
    > {
        match self.claim(pool_id, buyer, now as nat) {
            Ok(after) => Ok(
                claim_settlement(self.pools[pool_id], buyer, after.amount_purchased as u64, now),
            ),
            Err(error) => Err(error),
        }
    }

    /// What the ledger hands back for `intent` from `caller` at `now`.
    /// Only an authorized caller creates pools; purchases and claims are
    /// the caller's own.
    pub open spec fn execute_result(
        self,
        intent: Intent,
        caller: Address,
        authorized: bool,
        now: u64,
    ) -> Result<Outcome, ErrorMessage> {
        match intent {
            Intent::CreatePool { .. } => if !authorized {
                Err(ErrorMessage::Unauthorized)
            } else {
                match self.create_pool_result(intent.creation(caller), now) {
                    Ok(event) => Ok(Outcome::PoolCreated(event)),
                    Err(error) => Err(error),
                }
            },
            Intent::BuyToken { pool_id, amount } => match self.buy_token_result(
                pool_id,
                caller,
                amount,
                now,
            ) {
                Ok(settlement) => Ok(Outcome::Purchased(settlement)),
                Err(error) => Err(error),
            },
            Intent::ClaimToken { pool_id } => match self.claim_token_result(pool_id, caller, now) {
                Ok(settlement) => Ok(Outcome::Claimed(settlement)),
                Err(error) => Err(error),
            },
        }
    }

    /// The ledger after `intent` from `caller` at `now`.
    pub open spec fn after_execute(
        self,
        intent: Intent,
        caller: Address,
        authorized: bool,
        now: u64,
    ) -> LedgerView {
        match intent {
            Intent::CreatePool { .. } => if !authorized {
                self
            } else {
                self.after_create_pool(intent.creation(caller), now as nat)
            },
            Intent::BuyToken { pool_id, amount } => self.after_buy_token(
                pool_id,
                caller,
                amount as nat,
                now as nat,
            ),
            Intent::ClaimToken { pool_id } => self.after_claim_token(pool_id, caller, now as nat),
        }
    }

    /// The ledger after one call.
    pub open spec fn step(self, request: Request) -> LedgerView {
        self.after_execute(request.intent, request.caller, request.authorized, request.now)
    }

    /// The ledger that a history of calls leaves, starting from the empty
    /// ledger.
    pub open spec fn replay(history: Seq<Request>) -> LedgerView
        decreases history.len(),
    {
        if history.len() == 0 {
            LedgerView::empty()
        } else {
            LedgerView::replay(history.drop_last()).step(history.last())
        }
    }
}

/// The audit record of an accepted request to open a pool.
pub open spec fn pool_created(ctx: CreatePool, now: u64) -> PoolCreatedEvent {
    PoolCreatedEvent {
        signer: ctx.creator,
        pool: ctx.id,
        accept_currency: ctx.currency_asset,
        mint: ctx.sale_asset,
        timestamp: now,
    }
}

/// A keyed store of pools and purchase records, together with the
/// operations that keep it consistent.
#[derive(Debug)]
pub struct Ledger {
    pools: Vec<Pool>,
    receipts: Vec<PurchaseReceipt>,
}

/// The pools of a ledger as entries under their identifiers.
spec fn pool_entries(pools: Seq<Pool>) -> Seq<(Address, PoolView)> {
    pools.map_values(|pool: Pool| (pool@.id, pool@))
}

/// The records of a ledger as entries under pool and buyer.
spec fn receipt_entries(receipts: Seq<PurchaseReceipt>) -> Seq<
    ((Address, Address), ReceiptView),
> {
    receipts.map_values(|record: PurchaseReceipt| ((record@.pool_id, record@.buyer), record@))
}

impl View for Ledger {
    type V = LedgerView;

    closed spec fn view(&self) -> LedgerView {
        LedgerView {
            pools: entries_map(pool_entries(self.pools@)),
            receipts: entries_map(receipt_entries(self.receipts@)),
        }
    }
}

impl Ledger {
    /// Holds of every ledger that exists: no key is stored twice, every
    /// pool and record is valid, every record belongs to a stored pool, and
    /// every token sold is accounted for.
    #[verifier::type_invariant]
    spec fn valid(self) -> bool {
        &&& distinct_keys(pool_entries(self.pools@))
        &&& distinct_keys(receipt_entries(self.receipts@))
        &&& forall|i: int| 0 <= i < self.pools.len() ==> (#[trigger] self.pools[i])@.wf()
        &&& forall|i: int| 0 <= i < self.receipts.len() ==> (#[trigger] self.receipts[i])@.wf()
        &&& forall|i: int|
            0 <= i < self.receipts.len() ==> entries_map(pool_entries(self.pools@)).dom().contains(
                (#[trigger] self.receipts[i])@.pool_id,
            )
        &&& self.view().accounted()
    }

    /// A valid store stands for a well-formed ledger.
    proof fn lemma_valid_is_wf(self)
        requires
            self.valid(),
        ensures
            self@.wf(),
    {
        let pools = pool_entries(self.pools@);
        let receipts = receipt_entries(self.receipts@);
        assert forall|id: Address| #[trigger] self@.pools.dom().contains(id) implies self@.pools[id].wf()
            && self@.pools[id].id == id by {
            lemma_key_present(pools, id);
            let i = crate::keyed::position(pools, id);
            assert(pools[i] == (self.pools[i]@.id, self.pools[i]@));
        }
        assert forall|key: (Address, Address)| #[trigger]
            self@.receipts.dom().contains(key) implies {
            &&& self@.receipts[key].wf()
            &&& self@.receipts[key].pool_id == key.0
            &&& self@.receipts[key].buyer == key.1
            &&& self@.pools.dom().contains(key.0)
        } by {
            lemma_key_present(receipts, key);
            let i = crate::keyed::position(receipts, key);
            assert(receipts[i] == ((self.receipts[i]@.pool_id, self.receipts[i]@.buyer), self.receipts[i]@));
        }
    }

    /// The pool stored under `id`, if there is one.
    pub fn pool(&self, id: Address) -> (found: Option<Pool>)
        ensures
            found is Some <==> self@.pools.dom().contains(id),
            found is Some ==> found->Some_0@ == self@.pools[id],
    {
        proof {
            use_type_invariant(self);
        }
        match find_pool(&self.pools, id) {
            Some(i) => {
                proof {
                    let entries = pool_entries(self.pools@);
                    assert(entries[i as int] == (self.pools[i as int]@.id, self.pools[i as int]@));
                    lemma_entry_at(entries, i as int);
                }
                Some(self.pools[i])
            },
            None => {
                proof {
                    lemma_key_absent(pool_entries(self.pools@), id);
                }
                None
            },
        }
    }

    /// The record of `buyer` in the pool `pool_id`, if there is one.
    pub fn receipt(&self, pool_id: Address, buyer: Address) -> (found: Option<PurchaseReceipt>)
        ensures
            found is Some <==> self@.receipt(pool_id, buyer) is Some,
            found is Some ==> found->Some_0@ == self@.receipt(pool_id, buyer)->Some_0,
    {
        proof {
            use_type_invariant(self);
        }
        match find_receipt(&self.receipts, pool_id, buyer) {
            Some(i) => {
                proof {
                    let entries = receipt_entries(self.receipts@);
                    assert(entries[i as int] == (
                        (self.receipts[i as int]@.pool_id, self.receipts[i as int]@.buyer),
                        self.receipts[i as int]@,
                    ));
                    lemma_entry_at(entries, i as int);
                }
                Some(self.receipts[i])
            },
            None => {
                proof {
                    lemma_key_absent(receipt_entries(self.receipts@), (pool_id, buyer));
                }
                None
            },
        }
    }
}

/// The place of the pool with this identifier among `pools`.
fn find_pool(pools: &Vec<Pool>, id: Address) -> (found: Option<usize>)
    ensures
        match found {
            Some(i) => i < pools.len() && pools[i as int]@.id == id,
            None => forall|i: int|
                0 <= i < pools.len() ==> (#[trigger] pool_entries(pools@)[i]).0 != id,
        },
{
    let mut i: usize = 0;
    while i < pools.len()
        invariant
            i <= pools.len(),
            forall|k: int| 0 <= k < i ==> (#[trigger] pool_entries(pools@)[k]).0 != id,
        decreases pools.len() - i,
    {
        if pools[i].id() == id {
            return Some(i);
        }
        i = i + 1;
    }
    None
}

/// The place of the record of this buyer in this pool among `receipts`.
fn find_receipt(receipts: &Vec<PurchaseReceipt>, pool_id: Address, buyer: Address) -> (found: Option<
    usize,
>)
    ensures
        match found {
            Some(i) => i < receipts.len() && receipts[i as int]@.pool_id == pool_id
                && receipts[i as int]@.buyer == buyer,
            None => forall|i: int|
                0 <= i < receipts.len() ==> (#[trigger] receipt_entries(receipts@)[i]).0 != (
                    pool_id,
                    buyer,
                ),
        },
{
    let mut i: usize = 0;
    while i < receipts.len()
        invariant
            i <= receipts.len(),
            forall|k: int|
                0 <= k < i ==> (#[trigger] receipt_entries(receipts@)[k]).0 != (pool_id, buyer),
        decreases receipts.len() - i,
    {
        if receipts[i].pool() == pool_id && receipts[i].buyer() == buyer {
            return Some(i);
        }
        i = i + 1;
    }
    None
}

/// Moves the contents out of the ledger, which is left empty.
fn take_contents(ledger: &mut Ledger) -> (contents: (Vec<Pool>, Vec<PurchaseReceipt>))
    ensures
        contents.0 == old(ledger).pools,
        contents.1 == old(ledger).receipts,
{
    let mut taken = empty_ledger();
    std::mem::swap(&mut taken, ledger);
    (taken.pools, taken.receipts)
}

/// A ledger with no pool and no record.
fn empty_ledger() -> (ledger: Ledger)
    ensures
        ledger@ == LedgerView::empty(),
{
    let pools: Vec<Pool> = Vec::new();
    let receipts: Vec<PurchaseReceipt> = Vec::new();
    proof {
        assert(pool_entries(pools@) =~= Seq::empty());
        assert(receipt_entries(receipts@) =~= Seq::empty());
        assert(entries_map(pool_entries(pools@)) =~= Map::empty());
        assert(entries_map(receipt_entries(receipts@)) =~= Map::empty());
    }
    Ledger { pools, receipts }
}

/// An empty ledger.
pub fn initialize() -> (ledger: Ledger)
    ensures
        ledger@ == LedgerView::empty(),
        ledger@.wf(),
        ledger@.accounted(),
{
    empty_ledger()
}

/// Opens a pool on the ledger.
///
/// The request is first held against the timing rules at `now`; then the
/// identifier must be free. A refused request leaves the ledger as it was.
pub fn create_pool(ledger: &mut Ledger, ctx: CreatePool, now: u64) -> (created: Result<
    PoolCreatedEvent,
    ErrorMessage,
>)
    ensures
        created == old(ledger)@.create_pool_result(ctx, now),
        final(ledger)@ == old(ledger)@.after_create_pool(ctx, now as nat),
        created is Err ==> *final(ledger) == *old(ledger),
        final(ledger)@.wf(),
        final(ledger)@.accounted(),
{
    proof {
        use_type_invariant(&*ledger);
        (*ledger).lemma_valid_is_wf();
    }
    let pool = match process_create_pool(&ctx, now) {
        Ok(pool) => pool,
        Err(error) => {
            return Err(error);
        },
    };
    match find_pool(&ledger.pools, ctx.id) {
        Some(i) => {
            proof {
                let entries = pool_entries(ledger.pools@);
                assert(entries[i as int] == (ledger.pools[i as int]@.id, ledger.pools[i as int]@));
                lemma_entry_at(entries, i as int);
            }
            return Err(ErrorMessage::PoolAlreadyExists);
        },
        None => {},
    }
    proof {
        use_type_invariant(&pool);
        let entries = pool_entries(ledger.pools@);
        lemma_key_absent(entries, ctx.id);
        lemma_push_entry(entries, ctx.id, pool@);
        assert(pool_entries(ledger.pools@.push(pool)) =~= entries.push((ctx.id, pool@)));
    }
    let (mut pools, receipts) = take_contents(ledger);
    pools.push(pool);
    *ledger = Ledger { pools, receipts };
    proof {
        use_type_invariant(&*ledger);
        (*ledger).lemma_valid_is_wf();
    }
    Ok(
        PoolCreatedEvent {
            signer: ctx.creator,
            pool: ctx.id,
            accept_currency: ctx.currency_asset,
            mint: ctx.sale_asset,
            timestamp: now,
        },
    )
}

/// Records a purchase of `amount` units of currency by `buyer` in the pool
/// `pool_id` at `now`.
///
/// The pool and the buyer's record are loaded, the purchase rules are
/// applied, and both are stored only after every rule has passed: the
/// buyer's record is created by their first purchase. A refused purchase
/// leaves the ledger as it was.
pub fn buy_token(ledger: &mut Ledger, pool_id: Address, buyer: Address, amount: u64, now: u64) -> (settled:
    Result<Settlement, ErrorMessage>)
    ensures
        settled == old(ledger)@.buy_token_result(pool_id, buyer, amount, now),
        final(ledger)@ == old(ledger)@.after_buy_token(pool_id, buyer, amount as nat, now as nat),
        settled is Err ==> *final(ledger) == *old(ledger),
        final(ledger)@.wf(),
        final(ledger)@.accounted(),
{
    proof {
        use_type_invariant(&*ledger);
        (*ledger).lemma_valid_is_wf();
    }
    let ghost before = ledger@;
    let ghost pools = pool_entries(ledger.pools@);
    let ghost receipts = receipt_entries(ledger.receipts@);
    let i = match find_pool(&ledger.pools, pool_id) {
        Some(i) => i,
        None => {
            proof {
                lemma_key_absent(pools, pool_id);
            }
            return Err(ErrorMessage::PoolNotFound);
        },
    };
    proof {
        assert(pools[i as int] == (ledger.pools[i as int]@.id, ledger.pools[i as int]@));
        lemma_entry_at(pools, i as int);
    }
    let j = find_receipt(&ledger.receipts, pool_id, buyer);
    let record = match j {
        Some(j) => {
            proof {
                assert(receipts[j as int] == (
                    (ledger.receipts[j as int]@.pool_id, ledger.receipts[j as int]@.buyer),
                    ledger.receipts[j as int]@,
                ));
                lemma_entry_at(receipts, j as int);
            }
            Some(ledger.receipts[j])
        },
        None => {
            proof {
                lemma_key_absent(receipts, (pool_id, buyer));
            }
            None
        },
    };
    let mut ctx = BuyToken::assemble(buyer, ledger.pools[i], record);
    let settlement = match process_buy_token(&mut ctx, amount, now) {
        Ok(settlement) => settlement,
        Err(error) => {
            return Err(error);
        },
    };
    let pool = ctx.pool_account();
    let receipt = ctx.buyer_account().unwrap();
    proof {
        use_type_invariant(&pool);
        use_type_invariant(&receipt);
        lemma_update_entry(pools, i as int, pool@);
        assert(pool_entries(ledger.pools@.update(i as int, pool)) =~= pools.update(
            i as int,
            (pool_id, pool@),
        ));
    }
    let (mut stored_pools, mut stored_receipts) = take_contents(ledger);
    stored_pools.set(i, pool);
    match j {
        Some(j) => {
            proof {
                lemma_update_entry(receipts, j as int, receipt@);
                assert(receipt_entries(stored_receipts@.update(j as int, receipt)) =~= receipts.update(
                    j as int,
                    ((pool_id, buyer), receipt@),
                ));
            }
            stored_receipts.set(j, receipt);
        },
        None => {
            proof {
                lemma_push_entry(receipts, (pool_id, buyer), receipt@);
                assert(receipt_entries(stored_receipts@.push(receipt)) =~= receipts.push(
                    ((pool_id, buyer), receipt@),
                ));
            }
            stored_receipts.push(receipt);
        },
    }
    proof {
        let next = Ledger { pools: stored_pools, receipts: stored_receipts };
        assert(next@ == before.after_buy_token(pool_id, buyer, amount as nat, now as nat));
        lemma_buy_token_keeps_accounted(before, pool_id, buyer, amount as nat, now as nat);
    }
    *ledger = Ledger { pools: stored_pools, receipts: stored_receipts };
    proof {
        use_type_invariant(&*ledger);
        (*ledger).lemma_valid_is_wf();
    }
    Ok(settlement)
}

/// Settles the purchases of `buyer` in the pool `pool_id` at `now`.
///
/// The buyer's record is settled in full, once; the pool is not touched. A
/// refused claim leaves the ledger as it was.
pub fn claim_token(ledger: &mut Ledger, pool_id: Address, buyer: Address, now: u64) -> (settled:
    Result<Settlement, ErrorMessage>)
    ensures
        settled == old(ledger)@.claim_token_result(pool_id, buyer, now),
        final(ledger)@ == old(ledger)@.after_claim_token(pool_id, buyer, now as nat),
        settled is Err ==> *final(ledger) == *old(ledger),
        final(ledger)@.wf(),
        final(ledger)@.accounted(),
{
    proof {
        use_type_invariant(&*ledger);
        (*ledger).lemma_valid_is_wf();
    }
    let ghost before = ledger@;
    let ghost pools = pool_entries(ledger.pools@);
    let ghost receipts = receipt_entries(ledger.receipts@);
    let i = match find_pool(&ledger.pools, pool_id) {
        Some(i) => i,
        None => {
            proof {
                lemma_key_absent(pools, pool_id);
            }
            return Err(ErrorMessage::PoolNotFound);
        },
    };
    proof {
        assert(pools[i as int] == (ledger.pools[i as int]@.id, ledger.pools[i as int]@));
        lemma_entry_at(pools, i as int);
    }
    let j = find_receipt(&ledger.receipts, pool_id, buyer);
    let record = match j {
        Some(j) => {
            proof {
                assert(receipts[j as int] == (
                    (ledger.receipts[j as int]@.pool_id, ledger.receipts[j as int]@.buyer),
                    ledger.receipts[j as int]@,
                ));
                lemma_entry_at(receipts, j as int);
            }
            Some(ledger.receipts[j])
        },
        None => {
            proof {
                lemma_key_absent(receipts, (pool_id, buyer));
            }
            None
        },
    };
    let mut ctx = ClaimToken::assemble(buyer, ledger.pools[i], record);
    let settlement = match process_claim_token(&mut ctx, now) {
        Ok(settlement) => settlement,
        Err(error) => {
            return Err(error);
        },
    };
    let receipt = ctx.buyer_account().unwrap();
    let j = j.unwrap();
    proof {
        use_type_invariant(&receipt);
        lemma_update_entry(receipts, j as int, receipt@);
        assert(receipt_entries(ledger.receipts@.update(j as int, receipt)) =~= receipts.update(
            j as int,
            ((pool_id, buyer), receipt@),
        ));
    }
    let (stored_pools, mut stored_receipts) = take_contents(ledger);
    stored_receipts.set(j, receipt);
    proof {
        let next = Ledger { pools: stored_pools, receipts: stored_receipts };
        assert(next@ == before.after_claim_token(pool_id, buyer, now as nat));
        lemma_claim_token_keeps_accounted(before, pool_id, buyer, now as nat);
    }
    *ledger = Ledger { pools: stored_pools, receipts: stored_receipts };
    proof {
        use_type_invariant(&*ledger);
        (*ledger).lemma_valid_is_wf();
    }
    Ok(settlement)
}

/// Carries out one intent of an authenticated caller at `now`.
///
/// `authorized` tells whether the caller may create pools; it plays no part
/// in purchases and claims, which are the caller's own. The ledger changes
/// only if the intent is carried out.
pub fn execute(ledger: &mut Ledger, intent: Intent, caller: Address, authorized: bool, now: u64) -> (done:
    Result<Outcome, ErrorMessage>)
    ensures
        done == old(ledger)@.execute_result(intent, caller, authorized, now),
        final(ledger)@ == old(ledger)@.after_execute(intent, caller, authorized, now),
        done is Err ==> *final(ledger) == *old(ledger),
        final(ledger)@.wf(),
        final(ledger)@.accounted(),
{
    proof {
        use_type_invariant(&*ledger);
        (*ledger).lemma_valid_is_wf();
    }
    match intent {
        Intent::CreatePool {
            id,
            currency_asset,
            sale_asset,
            start_time,
            end_time,
            claim_time,
            supply_total,
            rate,
            rate_decimals,
        } => {
            if !authorized {
                return Err(ErrorMessage::Unauthorized);
            }
            let ctx = CreatePool {
                creator: caller,
                id,
                currency_asset,
                sale_asset,
                start_time,
                end_time,
                claim_time,
                supply_total,
                rate,
                rate_decimals,
            };
            match create_pool(ledger, ctx, now) {
                Ok(event) => Ok(Outcome::PoolCreated(event)),
                Err(error) => Err(error),
            }
        },
        Intent::BuyToken { pool_id, amount } => match buy_token(ledger, pool_id, caller, amount, now) {
            Ok(settlement) => Ok(Outcome::Purchased(settlement)),
            Err(error) => Err(error),
        },
        Intent::ClaimToken { pool_id } => match claim_token(ledger, pool_id, caller, now) {
            Ok(settlement) => Ok(Outcome::Claimed(settlement)),
            Err(error) => Err(error),
        },
    }
}

} // verus!
