//! What the ledger keeps: pools and purchase records.

pub mod address;
pub mod pool;
pub mod purchase_receipt;
