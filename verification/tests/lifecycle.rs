use solana_ido::errors::ErrorMessage;
use solana_ido::instructions::buy_token::{process_buy_token, BuyToken};
use solana_ido::instructions::claim_token::{process_claim_token, ClaimToken};
use solana_ido::instructions::create_pool::{process_create_pool, CreatePool};
use solana_ido::states::address::Address;
use solana_ido::states::pool::{Phase, Pool};
use solana_ido::states::purchase_receipt::PurchaseReceipt;
use solana_ido::transfer::{Party, TransferIntent};

fn id(n: u8) -> Address {
    Address::new([n; 32])
}

fn request(start_time: u64, end_time: u64, claim_time: u64) -> CreatePool {
    CreatePool {
        creator: id(1),
        id: id(2),
        currency_asset: id(3),
        sale_asset: id(4),
        start_time,
        end_time,
        claim_time,
        supply_total: 1000,
        rate: 2,
        rate_decimals: 0,
    }
}

fn sample_pool() -> Pool {
    process_create_pool(&request(100, 200, 300), 50).unwrap()
}

#[test]
fn addresses_compare_by_their_bytes() {
    let mut bytes = [7u8; 32];
    assert_eq!(Address::new(bytes), id(7));
    bytes[31] = 8;
    assert_ne!(Address::new(bytes), id(7));
    bytes[31] = 7;
    bytes[0] = 0;
    assert_ne!(Address::new(bytes), id(7));
}

#[test]
fn a_new_pool_holds_its_configuration() {
    let pool = sample_pool();
    assert_eq!(pool.id(), id(2));
    assert_eq!(pool.creator(), id(1));
    assert_eq!(pool.currency_asset(), id(3));
    assert_eq!(pool.sale_asset(), id(4));
    assert_eq!(pool.rate(), 2);
    assert_eq!(pool.rate_decimals(), 0);
    assert_eq!(pool.start_time(), 100);
    assert_eq!(pool.end_time(), 200);
    assert_eq!(pool.claim_time(), 300);
    assert_eq!(pool.supply_total(), 1000);
    assert_eq!(pool.supply_sold(), 0);
    assert_eq!(pool.remaining(), 1000);
}

#[test]
fn creation_accepts_times_equal_to_now() {
    let pool = process_create_pool(&request(50, 50, 50), 50).unwrap();
    assert_eq!(pool.start_time(), 50);
    assert_eq!(pool.claim_time(), 50);
}

#[test]
fn creation_rejects_a_start_in_the_past() {
    assert_eq!(process_create_pool(&request(49, 200, 300), 50).unwrap_err(), ErrorMessage::StartTimeInPast);
    // the start is checked first
    assert_eq!(process_create_pool(&request(49, 10, 5), 50).unwrap_err(), ErrorMessage::StartTimeInPast);
}

#[test]
fn creation_rejects_an_end_in_the_past() {
    assert_eq!(process_create_pool(&request(100, 49, 300), 50).unwrap_err(), ErrorMessage::EndTimeInPast);
}

#[test]
fn creation_rejects_an_end_before_the_start() {
    assert_eq!(process_create_pool(&request(100, 99, 300), 50).unwrap_err(), ErrorMessage::EndBeforeStart);
}

#[test]
fn creation_rejects_a_claim_time_in_the_past() {
    assert_eq!(process_create_pool(&request(100, 200, 49), 50).unwrap_err(), ErrorMessage::ClaimTimeInPast);
}

#[test]
fn creation_rejects_a_claim_time_before_the_end() {
    assert_eq!(process_create_pool(&request(100, 200, 199), 50).unwrap_err(), ErrorMessage::ClaimBeforeEnd);
}

#[test]
fn phases_follow_the_timestamps() {
    let pool = sample_pool();
    assert_eq!(pool.phase(0), Phase::Pending);
    assert_eq!(pool.phase(99), Phase::Pending);
    assert_eq!(pool.phase(100), Phase::Active);
    assert_eq!(pool.phase(200), Phase::Active);
    assert_eq!(pool.phase(201), Phase::Closed);
    assert_eq!(pool.phase(299), Phase::Closed);
    assert_eq!(pool.phase(300), Phase::Claimable);
    assert_eq!(pool.phase(u64::MAX), Phase::Claimable);
}

#[test]
fn pools_are_loaded_only_if_valid() {
    let load = |start, end, claim, total, sold| {
        Pool::from_parts(id(2), id(1), id(3), id(4), 2, 0, start, end, claim, total, sold)
    };
    let pool = load(100, 200, 300, 1000, 1000).unwrap();
    assert_eq!(pool.supply_sold(), 1000);
    assert_eq!(pool.remaining(), 0);
    assert!(load(100, 200, 300, 1000, 1001).is_none());
    assert!(load(201, 200, 300, 1000, 0).is_none());
    assert!(load(100, 301, 300, 1000, 0).is_none());
}

#[test]
fn records_are_loaded_only_if_valid() {
    let open = PurchaseReceipt::from_parts(id(2), id(9), 200, 0, false).unwrap();
    assert_eq!(open.pool(), id(2));
    assert_eq!(open.buyer(), id(9));
    assert_eq!(open.amount_purchased(), 200);
    assert_eq!(open.amount_claimed(), 0);
    assert!(!open.is_claimed());
    let settled = PurchaseReceipt::from_parts(id(2), id(9), 200, 200, true).unwrap();
    assert!(settled.is_claimed());
    assert_eq!(settled.amount_claimed(), 200);
    assert!(PurchaseReceipt::from_parts(id(2), id(9), 0, 0, false).is_none());
    assert!(PurchaseReceipt::from_parts(id(2), id(9), 200, 100, true).is_none());
    assert!(PurchaseReceipt::from_parts(id(2), id(9), 200, 200, false).is_none());
    assert!(PurchaseReceipt::from_parts(id(2), id(9), 200, 0, true).is_none());
}

#[test]
fn a_context_takes_only_the_buyers_own_record() {
    let pool = sample_pool();
    let theirs = PurchaseReceipt::from_parts(id(2), id(9), 200, 0, false).unwrap();
    assert!(BuyToken::new(id(9), pool, Some(theirs)).is_some());
    assert!(BuyToken::new(id(8), pool, Some(theirs)).is_none());
    assert!(ClaimToken::new(id(9), pool, Some(theirs)).is_some());
    assert!(ClaimToken::new(id(8), pool, Some(theirs)).is_none());
    let elsewhere = PurchaseReceipt::from_parts(id(5), id(9), 200, 0, false).unwrap();
    assert!(BuyToken::new(id(9), pool, Some(elsewhere)).is_none());
    assert!(ClaimToken::new(id(9), pool, Some(elsewhere)).is_none());
    assert!(BuyToken::new(id(9), pool, None).is_some());
    assert!(ClaimToken::new(id(9), pool, None).is_some());
}

#[test]
fn a_first_purchase_creates_the_record() {
    let mut ctx = BuyToken::new(id(9), sample_pool(), None).unwrap();
    let settled = process_buy_token(&mut ctx, 100, 150).unwrap();
    assert_eq!(settled.tokens, 200);
    assert_eq!(
        settled.transfer,
        TransferIntent { asset: id(3), from: Party::Buyer(id(9)), to: Party::Treasury(id(2)), amount: 100 }
    );
    assert_eq!(settled.event.buyer, id(9));
    assert_eq!(settled.event.pool, id(2));
    assert_eq!(settled.event.currency_amount, 100);
    assert_eq!(settled.event.tokens_received, 200);
    assert_eq!(settled.event.timestamp, 150);
    assert_eq!(ctx.buyer(), id(9));
    assert_eq!(ctx.pool_account().supply_sold(), 200);
    assert_eq!(ctx.pool_account().remaining(), 800);
    let record = ctx.buyer_account().unwrap();
    assert_eq!(record.pool(), id(2));
    assert_eq!(record.buyer(), id(9));
    assert_eq!(record.amount_purchased(), 200);
    assert_eq!(record.amount_claimed(), 0);
    assert!(!record.is_claimed());
}

#[test]
fn purchases_add_up() {
    let mut ctx = BuyToken::new(id(9), sample_pool(), None).unwrap();
    assert_eq!(process_buy_token(&mut ctx, 100, 100).unwrap().tokens, 200);
    assert_eq!(process_buy_token(&mut ctx, 50, 200).unwrap().tokens, 100);
    assert_eq!(ctx.pool_account().supply_sold(), 300);
    assert_eq!(ctx.buyer_account().unwrap().amount_purchased(), 300);
    // exactly what is left can still be bought
    assert_eq!(process_buy_token(&mut ctx, 350, 150).unwrap().tokens, 700);
    assert_eq!(ctx.pool_account().supply_sold(), 1000);
    assert_eq!(ctx.pool_account().remaining(), 0);
    assert_eq!(process_buy_token(&mut ctx, 1, 150).unwrap_err(), ErrorMessage::SupplyExceeded);
}

#[test]
fn a_purchase_outside_the_sale_changes_nothing() {
    let mut ctx = BuyToken::new(id(9), sample_pool(), None).unwrap();
    assert_eq!(process_buy_token(&mut ctx, 100, 99).unwrap_err(), ErrorMessage::SaleNotStarted);
    assert_eq!(process_buy_token(&mut ctx, 100, 201).unwrap_err(), ErrorMessage::SaleEnded);
    assert_eq!(process_buy_token(&mut ctx, 100, 300).unwrap_err(), ErrorMessage::SaleEnded);
    // the phase is checked before the amount and the supply
    assert_eq!(process_buy_token(&mut ctx, 0, 99).unwrap_err(), ErrorMessage::SaleNotStarted);
    assert_eq!(process_buy_token(&mut ctx, u64::MAX, 201).unwrap_err(), ErrorMessage::SaleEnded);
    assert_eq!(ctx.pool_account().supply_sold(), 0);
    assert!(ctx.buyer_account().is_none());
}

#[test]
fn a_purchase_of_nothing_is_invalid() {
    let mut ctx = BuyToken::new(id(9), sample_pool(), None).unwrap();
    assert_eq!(process_buy_token(&mut ctx, 0, 150).unwrap_err(), ErrorMessage::InvalidAmount);
    assert_eq!(ctx.pool_account().supply_sold(), 0);
    assert!(ctx.buyer_account().is_none());
}

#[test]
fn a_first_purchase_must_buy_a_token() {
    let mut small = request(100, 200, 300);
    small.rate = 1;
    small.rate_decimals = 2;
    let pool = process_create_pool(&small, 50).unwrap();
    let mut ctx = BuyToken::new(id(9), pool, None).unwrap();
    assert_eq!(process_buy_token(&mut ctx, 99, 150).unwrap_err(), ErrorMessage::InvalidAmount);
    assert!(ctx.buyer_account().is_none());
    assert_eq!(process_buy_token(&mut ctx, 100, 150).unwrap().tokens, 1);
    // with a record in place, a payment that rounds down to nothing adds nothing
    let settled = process_buy_token(&mut ctx, 99, 150).unwrap();
    assert_eq!(settled.tokens, 0);
    assert_eq!(settled.transfer.amount, 99);
    assert_eq!(ctx.pool_account().supply_sold(), 1);
    assert_eq!(ctx.buyer_account().unwrap().amount_purchased(), 1);
}

#[test]
fn an_oversized_purchase_is_refused_in_full() {
    let mut ctx = BuyToken::new(id(9), sample_pool(), None).unwrap();
    assert_eq!(process_buy_token(&mut ctx, 501, 150).unwrap_err(), ErrorMessage::SupplyExceeded);
    assert_eq!(ctx.pool_account().supply_sold(), 0);
    assert!(ctx.buyer_account().is_none());
    assert_eq!(process_buy_token(&mut ctx, 500, 150).unwrap().tokens, 1000);
}

#[test]
fn a_purchase_that_overflows_is_refused() {
    let mut ctx = BuyToken::new(id(9), sample_pool(), None).unwrap();
    assert_eq!(process_buy_token(&mut ctx, u64::MAX, 150).unwrap_err(), ErrorMessage::ArithmeticOverflow);
    assert_eq!(ctx.pool_account().supply_sold(), 0);
    // a record that is close to the 64-bit limit cannot take more
    let mut big = request(100, 200, 300);
    big.supply_total = u64::MAX;
    big.rate = 1;
    let pool = process_create_pool(&big, 50).unwrap();
    let full = PurchaseReceipt::from_parts(id(2), id(9), u64::MAX - 1, 0, false).unwrap();
    let mut ctx = BuyToken::new(id(9), pool, Some(full)).unwrap();
    assert_eq!(process_buy_token(&mut ctx, 2, 150).unwrap_err(), ErrorMessage::ArithmeticOverflow);
    assert_eq!(ctx.buyer_account().unwrap().amount_purchased(), u64::MAX - 1);
    assert_eq!(process_buy_token(&mut ctx, 1, 150).unwrap().tokens, 1);
    assert_eq!(ctx.buyer_account().unwrap().amount_purchased(), u64::MAX);
}

#[test]
fn a_settled_record_takes_no_more_tokens() {
    let settled = PurchaseReceipt::from_parts(id(2), id(9), 200, 200, true).unwrap();
    let mut ctx = BuyToken::new(id(9), sample_pool(), Some(settled)).unwrap();
    assert_eq!(process_buy_token(&mut ctx, 100, 150).unwrap_err(), ErrorMessage::AlreadyClaimed);
    let record = ctx.buyer_account().unwrap();
    assert_eq!(record.amount_purchased(), 200);
    assert_eq!(record.amount_claimed(), 200);
    assert_eq!(ctx.pool_account().supply_sold(), 0);
}

#[test]
fn a_claim_settles_the_record_once() {
    let record = PurchaseReceipt::from_parts(id(2), id(9), 200, 0, false).unwrap();
    let mut ctx = ClaimToken::new(id(9), sample_pool(), Some(record)).unwrap();
    assert_eq!(process_claim_token(&mut ctx, 250).unwrap_err(), ErrorMessage::ClaimNotStarted);
    assert_eq!(process_claim_token(&mut ctx, 299).unwrap_err(), ErrorMessage::ClaimNotStarted);
    assert!(!ctx.buyer_account().unwrap().is_claimed());
    let settled = process_claim_token(&mut ctx, 300).unwrap();
    assert_eq!(settled.tokens, 200);
    assert_eq!(
        settled.transfer,
        TransferIntent { asset: id(4), from: Party::PoolCustody(id(2)), to: Party::Buyer(id(9)), amount: 200 }
    );
    assert_eq!(settled.event.buyer, id(9));
    assert_eq!(settled.event.pool, id(2));
    assert_eq!(settled.event.currency_amount, 0);
    assert_eq!(settled.event.tokens_received, 200);
    assert_eq!(settled.event.timestamp, 300);
    let after = ctx.buyer_account().unwrap();
    assert!(after.is_claimed());
    assert_eq!(after.amount_claimed(), 200);
    assert_eq!(after.amount_purchased(), 200);
    assert_eq!(ctx.buyer(), id(9));
    assert_eq!(ctx.pool_account().supply_sold(), 0);
    assert_eq!(process_claim_token(&mut ctx, 301).unwrap_err(), ErrorMessage::AlreadyClaimed);
    let again = ctx.buyer_account().unwrap();
    assert!(again.is_claimed());
    assert_eq!(again.amount_claimed(), 200);
}

#[test]
fn a_claim_without_a_record_has_nothing_to_claim() {
    let mut ctx = ClaimToken::new(id(9), sample_pool(), None).unwrap();
    assert_eq!(process_claim_token(&mut ctx, 299).unwrap_err(), ErrorMessage::ClaimNotStarted);
    assert_eq!(process_claim_token(&mut ctx, 300).unwrap_err(), ErrorMessage::NothingToClaim);
    assert!(ctx.buyer_account().is_none());
}

#[test]
fn a_claim_before_claim_time_fails_even_if_settled() {
    let settled = PurchaseReceipt::from_parts(id(2), id(9), 200, 200, true).unwrap();
    let mut ctx = ClaimToken::new(id(9), sample_pool(), Some(settled)).unwrap();
    assert_eq!(process_claim_token(&mut ctx, 250).unwrap_err(), ErrorMessage::ClaimNotStarted);
    assert_eq!(process_claim_token(&mut ctx, 300).unwrap_err(), ErrorMessage::AlreadyClaimed);
}
