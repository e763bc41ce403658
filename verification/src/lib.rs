//! A fixed-duration token-sale ledger.
//!
//! A sale pool moves through time-gated phases (pending, active sale, closed,
//! claimable). Purchases are recorded against a fixed supply cap, and each
//! participant settles their purchases with exactly one claim once the sale
//! has concluded. The library computes and records the amounts owed; moving
//! assets, telling the time and authenticating callers are left to the caller.

pub mod errors;
pub mod events;
pub mod instructions;
mod keyed;
pub mod laws;
pub mod ledger;
pub mod states;
pub mod sums;
pub mod transfer;
pub mod utils;

pub use errors::ErrorMessage;
pub use events::buy_token_event::BuyTokenEvent;
pub use events::pool_created_event::PoolCreatedEvent;
pub use instructions::buy_token::{process_buy_token, BuyToken};
pub use instructions::claim_token::{process_claim_token, ClaimToken};
pub use instructions::create_pool::{process_create_pool, CreatePool};
pub use ledger::{buy_token, claim_token, create_pool, execute, initialize, Intent, Ledger, Outcome};
pub use states::address::Address;
pub use states::pool::{Phase, Pool};
pub use states::purchase_receipt::PurchaseReceipt;
pub use transfer::{Party, Settlement, TransferIntent};
pub use utils::buy_token::calculate_buy_token;
