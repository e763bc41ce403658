//! The audit records that the ledger hands out.

pub mod buy_token_event;
pub mod pool_created_event;
