//! Pools and their phases.

use crate::states::address::Address;
use vstd::prelude::*;

verus! {

/// Where a pool stands at a given moment. The phase is never stored: it is
/// read off the pool's three timestamps.
#[derive(Clone, Copy, Debug, PartialEq, Eq, Structural)]
pub enum Phase {
    /// Before `start_time`.
    Pending,
    /// From `start_time` to `end_time`, both included.
    Active,
    /// After `end_time` and before `claim_time`.
    Closed,
    /// From `claim_time` on.
    Claimable,
}

/// The mathematical content of a pool.
pub struct PoolView {
    pub id: Address,
    pub creator: Address,
    pub currency_asset: Address,
    pub sale_asset: Address,
    pub rate: nat,
    pub rate_decimals: nat,
    pub start_time: nat,
    pub end_time: nat,
    pub claim_time: nat,
    pub supply_total: nat,
    pub supply_sold: nat,
}

impl PoolView {
    /// The order of the timestamps and the supply cap.
    pub open spec fn wf(self) -> bool {
        &&& self.start_time <= self.end_time
        &&& self.end_time <= self.claim_time
        &&& self.supply_sold <= self.supply_total
    }

    /// Tokens still for sale.
    pub open spec fn remaining(self) -> nat {
        (self.supply_total - self.supply_sold) as nat
    }

    /// The phase at `now`. Where the sale ends at the very moment claims
    /// open, that moment still counts as `Active`.
    pub open spec fn phase(self, now: nat) -> Phase {
        if now < self.start_time {
            Phase::Pending
        } else if now <= self.end_time {
            Phase::Active
        } else if now < self.claim_time {
            Phase::Closed
        } else {
            Phase::Claimable
        }
    }

    /// This pool after `tokens` more were sold.
    pub open spec fn sell(self, tokens: nat) -> PoolView {
        PoolView { supply_sold: self.supply_sold + tokens, ..self }
    }
}

/// In a valid pool the four phases follow one another in time, and each
/// moment falls in exactly one of them.
pub proof fn lemma_phase_by_time(pool: PoolView, now: nat)
    requires
        pool.wf(),
    ensures
        pool.phase(now) is Pending <==> now < pool.start_time,
        pool.phase(now) is Active <==> pool.start_time <= now <= pool.end_time,
        pool.phase(now) is Closed <==> pool.end_time < now < pool.claim_time,
        pool.phase(now) is Claimable <==> pool.end_time < now && pool.claim_time <= now,
{
}

/// Phases only move forward as time passes.
pub proof fn lemma_phase_moves_forward(pool: PoolView, earlier: nat, later: nat)
    requires
        pool.wf(),
        earlier <= later,
    ensures
        pool.phase(earlier) is Active ==> !(pool.phase(later) is Pending),
        pool.phase(earlier) is Closed ==> pool.phase(later) is Closed || pool.phase(
            later,
        ) is Claimable,
        pool.phase(earlier) is Claimable ==> pool.phase(later) is Claimable,
{
}

/// One sale offering: its configuration, fixed at creation, and the running
/// count of tokens sold.
#[derive(Clone, Copy, Debug)]
pub struct Pool {
    id: Address,
    creator: Address,
    currency_asset: Address,
    sale_asset: Address,
    rate: u64,
    rate_decimals: u8,
    start_time: u64,
    end_time: u64,
    claim_time: u64,
    supply_total: u64,
    supply_sold: u64,
}

impl View for Pool {
    type V = PoolView;

    closed spec fn view(&self) -> PoolView {
        PoolView {
            id: self.id,
            creator: self.creator,
            currency_asset: self.currency_asset,
            sale_asset: self.sale_asset,
            rate: self.rate as nat,
            rate_decimals: self.rate_decimals as nat,
            start_time: self.start_time as nat,
            end_time: self.end_time as nat,
            claim_time: self.claim_time as nat,
            supply_total: self.supply_total as nat,
            supply_sold: self.supply_sold as nat,
        }
    }
}

impl Pool {
    /// Holds of every pool that exists: the timestamps are in order and no
    /// more than the supply was sold.
    #[verifier::type_invariant]
    pub open spec fn valid(self) -> bool {
        self@.wf()
    }

    /// A pool with the given contents, if they keep the timestamps in order
    /// and the sold amount within the supply.
    pub fn from_parts(
        id: Address,
        creator: Address,
        currency_asset: Address,
        sale_asset: Address,
        rate: u64,
        rate_decimals: u8,
        start_time: u64,
        end_time: u64,
        claim_time: u64,
        supply_total: u64,
        supply_sold: u64,
    ) -> (pool: Option<Pool>)
        ensures
            pool is Some <==> start_time <= end_time && end_time <= claim_time && supply_sold
                <= supply_total,
            pool is Some ==> pool->Some_0@ == (PoolView {
                id,
                creator,
                currency_asset,
                sale_asset,
                rate: rate as nat,
                rate_decimals: rate_decimals as nat,
                start_time: start_time as nat,
                end_time: end_time as nat,
                claim_time: claim_time as nat,
                supply_total: supply_total as nat,
                supply_sold: supply_sold as nat,
            }),
    {
        if start_time <= end_time && end_time <= claim_time && supply_sold <= supply_total {
            Some(
                Pool {
                    id,
                    creator,
                    currency_asset,
                    sale_asset,
                    rate,
                    rate_decimals,
                    start_time,
                    end_time,
                    claim_time,
                    supply_total,
                    supply_sold,
                },
            )
        } else {
            None
        }
    }

    /// A new pool with nothing sold, from a configuration whose timestamps
    /// are known to be in order.
    pub(crate) fn opened(
        id: Address,
        creator: Address,
        currency_asset: Address,
        sale_asset: Address,
        rate: u64,
        rate_decimals: u8,
        start_time: u64,
        end_time: u64,
        claim_time: u64,
        supply_total: u64,
    ) -> (pool: Pool)
        requires
            start_time <= end_time <= claim_time,
        ensures
            pool@ == (PoolView {
                id,
                creator,
                currency_asset,
                sale_asset,
                rate: rate as nat,
                rate_decimals: rate_decimals as nat,
                start_time: start_time as nat,
                end_time: end_time as nat,
                claim_time: claim_time as nat,
                supply_total: supply_total as nat,
                supply_sold: 0,
            }),
    {
        Pool {
            id,
            creator,
            currency_asset,
            sale_asset,
            rate,
            rate_decimals,
            start_time,
            end_time,
            claim_time,
            supply_total,
            supply_sold: 0,
        }
    }

    /// This pool after `tokens` more were sold.
    pub(crate) fn sell(&self, tokens: u64) -> (pool: Pool)
        requires
            tokens <= self@.remaining(),
        ensures
            pool@ == self@.sell(tokens as nat),
    {
        proof {
            use_type_invariant(self);
        }
        Pool { supply_sold: self.supply_sold + tokens, ..*self }
    }

    /// The phase of this pool at `now`.
    pub fn phase(&self, now: u64) -> (phase: Phase)
        ensures
            phase == self@.phase(now as nat),
    {
        if now < self.start_time {
            Phase::Pending
        } else if now <= self.end_time {
            Phase::Active
        } else if now < self.claim_time {
            Phase::Closed
        } else {
            Phase::Claimable
        }
    }

    /// Tokens still for sale.
    pub fn remaining(&self) -> (left: u64)
        ensures
            left == self@.remaining(),
            left <= self@.supply_total,
    {
        proof {
            use_type_invariant(self);
        }
        self.supply_total - self.supply_sold
    }

    /// The pool's identifier.
    pub fn id(&self) -> (id: Address)
        ensures
            id == self@.id,
    {
        self.id
    }

    /// Who created the pool.
    pub fn creator(&self) -> (creator: Address)
        ensures
            creator == self@.creator,
    {
        self.creator
    }

    /// The asset that buyers pay in.
    pub fn currency_asset(&self) -> (asset: Address)
        ensures
            asset == self@.currency_asset,
    {
        self.currency_asset
    }

    /// The asset that is sold.
    pub fn sale_asset(&self) -> (asset: Address)
        ensures
            asset == self@.sale_asset,
    {
        self.sale_asset
    }

    /// The numerator of the fixed-point rate: `rate / 10^rate_decimals` sale
    /// tokens per unit of currency.
    pub fn rate(&self) -> (rate: u64)
        ensures
            rate == self@.rate,
    {
        self.rate
    }

    /// The number of fractional digits of the rate.
    pub fn rate_decimals(&self) -> (decimals: u8)
        ensures
            decimals == self@.rate_decimals,
    {
        self.rate_decimals
    }

    /// The first moment of the sale, in seconds.
    pub fn start_time(&self) -> (time: u64)
        ensures
            time == self@.start_time,
    {
        self.start_time
    }

    /// The last moment of the sale, in seconds.
    pub fn end_time(&self) -> (time: u64)
        ensures
            time == self@.end_time,
    {
        self.end_time
    }

    /// The moment from which claims are open, in seconds.
    pub fn claim_time(&self) -> (time: u64)
        ensures
            time == self@.claim_time,
    {
        self.claim_time
    }

    /// The tokens allocated to the pool, fixed at creation.
    pub fn supply_total(&self) -> (total: u64)
        ensures
            total == self@.supply_total,
    {
        self.supply_total
    }

    /// The tokens sold so far; never more than the supply.
    pub fn supply_sold(&self) -> (sold: u64)
        ensures
            sold == self@.supply_sold,
            sold <= self@.supply_total,
    {
        proof {
            use_type_invariant(self);
        }
        self.supply_sold
    }
}

} // verus!
