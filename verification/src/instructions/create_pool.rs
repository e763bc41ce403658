//! Opening a pool: the timing rules of a new sale.

use crate::errors::ErrorMessage;
use crate::states::address::Address;
use crate::states::pool::{Pool, PoolView};
use vstd::prelude::*;

verus! {

/// A request to open a pool: who asks, and the pool's whole configuration.
#[derive(Clone, Copy, Debug, PartialEq, Eq)]
pub struct CreatePool {
    pub creator: Address,
    pub id: Address,
    pub currency_asset: Address,
    pub sale_asset: Address,
    pub start_time: u64,
    pub end_time: u64,
    pub claim_time: u64,
    pub supply_total: u64,
    pub rate: u64,
    pub rate_decimals: u8,
}

impl CreatePool {
    /// Why this request is refused at `now`, if it is: the first of the
    /// timing rules that it breaks.
    pub open spec fn rejection(self, now: nat) -> Option<ErrorMessage> {
        if self.start_time < now {
            Some(ErrorMessage::StartTimeInPast)
        } else if self.end_time < now {
            Some(ErrorMessage::EndTimeInPast)
        } else if self.end_time < self.start_time {
            Some(ErrorMessage::EndBeforeStart)
        } else if self.claim_time < now {
            Some(ErrorMessage::ClaimTimeInPast)
        } else if self.claim_time < self.end_time {
            Some(ErrorMessage::ClaimBeforeEnd)
        } else {
            None
        }
    }

    /// The pool that this request opens: its configuration, nothing sold.
    pub open spec fn pool(self) -> PoolView {
        PoolView {
            id: self.id,
            creator: self.creator,
            currency_asset: self.currency_asset,
            sale_asset: self.sale_asset,
            rate: self.rate as nat,
            rate_decimals: self.rate_decimals as nat,
            start_time: self.start_time as nat,
            end_time: self.end_time as nat,
            claim_time: self.claim_time as nat,
            supply_total: self.supply_total as nat,
            supply_sold: 0,
        }
    }
}

/// A request that passes the timing rules opens a pool whose timestamps are
/// in order, none of them before the moment of creation.
pub proof fn lemma_created_pool_is_valid(ctx: CreatePool, now: nat)
    requires
        ctx.rejection(now) is None,
    ensures
        ctx.pool().wf(),
        now <= ctx.pool().start_time,
        ctx.pool().supply_sold == 0,
{
}

/// Validates a request to open a pool against the current time and builds
/// the pool. Nothing is sold in a new pool.
pub fn process_create_pool(ctx: &CreatePool, now: u64) -> (created: Result<Pool, ErrorMessage>)
    ensures
        match ctx.rejection(now as nat) {
            Some(error) => created == Err::<Pool, ErrorMessage>(error),
            None => created is Ok && created->Ok_0@ == ctx.pool(),
        },
{
    if ctx.start_time < now {
        return Err(ErrorMessage::StartTimeInPast);
    }
    if ctx.end_time < now {
        return Err(ErrorMessage::EndTimeInPast);
    }
    if ctx.end_time < ctx.start_time {
        return Err(ErrorMessage::EndBeforeStart);
    }
    if ctx.claim_time < now {
        return Err(ErrorMessage::ClaimTimeInPast);
    }
    if ctx.claim_time < ctx.end_time {
        return Err(ErrorMessage::ClaimBeforeEnd);
    }
    Ok(
        Pool::opened(
            ctx.id,
            ctx.creator,
            ctx.currency_asset,
            ctx.sale_asset,
            ctx.rate,
            ctx.rate_decimals,
            ctx.start_time,
            ctx.end_time,
            ctx.claim_time,
            ctx.supply_total,
        ),
    )
}

} // verus!
