//! The three transitions of a pool: creation, purchase and claim.

pub mod buy_token;
pub mod claim_token;
pub mod create_pool;
