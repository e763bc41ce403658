use solana_ido::errors::ErrorMessage;
use solana_ido::instructions::create_pool::CreatePool;
use solana_ido::ledger::{buy_token, claim_token, create_pool, execute, initialize, Intent, Ledger, Outcome};
use solana_ido::states::address::Address;
use solana_ido::transfer::{Party, TransferIntent};

fn key(n: u8) -> Address {
    Address::new([n; 32])
}

fn offering(pool: u8) -> CreatePool {
    CreatePool {
        creator: key(1),
        id: key(pool),
        currency_asset: key(3),
        sale_asset: key(4),
        start_time: 100,
        end_time: 200,
        claim_time: 300,
        supply_total: 1000,
        rate: 2,
        rate_decimals: 0,
    }
}

fn ledger_with_pool() -> Ledger {
    let mut ledger = initialize();
    create_pool(&mut ledger, offering(2), 50).unwrap();
    ledger
}

#[test]
fn a_new_ledger_is_empty() {
    let ledger = initialize();
    assert!(ledger.pool(key(2)).is_none());
    assert!(ledger.receipt(key(2), key(9)).is_none());
}

#[test]
fn creating_a_pool_stores_it() {
    let mut ledger = initialize();
    let event = create_pool(&mut ledger, offering(2), 50).unwrap();
    assert_eq!(event.pool, key(2));
    assert_eq!(event.signer, key(1));
    assert_eq!(event.accept_currency, key(3));
    assert_eq!(event.mint, key(4));
    assert_eq!(event.timestamp, 50);
    let pool = ledger.pool(key(2)).unwrap();
    assert_eq!(pool.id(), key(2));
    assert_eq!(pool.supply_total(), 1000);
    assert_eq!(pool.supply_sold(), 0);
    assert!(ledger.pool(key(5)).is_none());
}

#[test]
fn a_pool_is_created_once() {
    let mut ledger = ledger_with_pool();
    buy_token(&mut ledger, key(2), key(9), 100, 150).unwrap();
    let mut other = offering(2);
    other.supply_total = 5;
    assert_eq!(create_pool(&mut ledger, other, 60).unwrap_err(), ErrorMessage::PoolAlreadyExists);
    let pool = ledger.pool(key(2)).unwrap();
    assert_eq!(pool.supply_total(), 1000);
    assert_eq!(pool.supply_sold(), 200);
    // the timing rules are held against the request first
    assert_eq!(create_pool(&mut ledger, offering(2), 101).unwrap_err(), ErrorMessage::StartTimeInPast);
}

#[test]
fn a_start_in_the_past_creates_no_pool() {
    let mut ledger = initialize();
    assert_eq!(create_pool(&mut ledger, offering(2), 101).unwrap_err(), ErrorMessage::StartTimeInPast);
    assert!(ledger.pool(key(2)).is_none());
}

#[test]
fn purchases_are_held_against_the_supply() {
    let mut ledger = ledger_with_pool();
    let settled = buy_token(&mut ledger, key(2), key(9), 100, 150).unwrap();
    assert_eq!(settled.tokens, 200);
    assert_eq!(ledger.pool(key(2)).unwrap().supply_sold(), 200);
    assert_eq!(ledger.receipt(key(2), key(9)).unwrap().amount_purchased(), 200);
    assert_eq!(buy_token(&mut ledger, key(2), key(9), 500, 160).unwrap_err(), ErrorMessage::SupplyExceeded);
    assert_eq!(ledger.pool(key(2)).unwrap().supply_sold(), 200);
    assert_eq!(ledger.receipt(key(2), key(9)).unwrap().amount_purchased(), 200);
    // another buyer is refused just the same and gets no record
    assert_eq!(buy_token(&mut ledger, key(2), key(8), 500, 160).unwrap_err(), ErrorMessage::SupplyExceeded);
    assert!(ledger.receipt(key(2), key(8)).is_none());
}

#[test]
fn a_claim_waits_for_claim_time_and_happens_once() {
    let mut ledger = ledger_with_pool();
    buy_token(&mut ledger, key(2), key(9), 100, 150).unwrap();
    assert_eq!(claim_token(&mut ledger, key(2), key(9), 250).unwrap_err(), ErrorMessage::ClaimNotStarted);
    let before = ledger.receipt(key(2), key(9)).unwrap();
    assert!(!before.is_claimed());
    assert_eq!(before.amount_claimed(), 0);
    let settled = claim_token(&mut ledger, key(2), key(9), 300).unwrap();
    assert_eq!(settled.tokens, 200);
    assert_eq!(
        settled.transfer,
        TransferIntent { asset: key(4), from: Party::PoolCustody(key(2)), to: Party::Buyer(key(9)), amount: 200 }
    );
    let after = ledger.receipt(key(2), key(9)).unwrap();
    assert!(after.is_claimed());
    assert_eq!(after.amount_claimed(), 200);
    assert_eq!(claim_token(&mut ledger, key(2), key(9), 301).unwrap_err(), ErrorMessage::AlreadyClaimed);
    let again = ledger.receipt(key(2), key(9)).unwrap();
    assert!(again.is_claimed());
    assert_eq!(again.amount_claimed(), 200);
    assert_eq!(again.amount_purchased(), 200);
    assert_eq!(ledger.pool(key(2)).unwrap().supply_sold(), 200);
}

#[test]
fn purchases_outside_the_sale_leave_the_ledger_alone() {
    let mut ledger = ledger_with_pool();
    assert_eq!(buy_token(&mut ledger, key(2), key(9), 100, 99).unwrap_err(), ErrorMessage::SaleNotStarted);
    assert_eq!(buy_token(&mut ledger, key(2), key(9), 100, 201).unwrap_err(), ErrorMessage::SaleEnded);
    assert_eq!(ledger.pool(key(2)).unwrap().supply_sold(), 0);
    assert!(ledger.receipt(key(2), key(9)).is_none());
}

#[test]
fn an_unknown_pool_is_refused() {
    let mut ledger = ledger_with_pool();
    assert_eq!(buy_token(&mut ledger, key(5), key(9), 100, 150).unwrap_err(), ErrorMessage::PoolNotFound);
    assert_eq!(claim_token(&mut ledger, key(5), key(9), 300).unwrap_err(), ErrorMessage::PoolNotFound);
    assert!(ledger.receipt(key(5), key(9)).is_none());
}

#[test]
fn a_buyer_without_purchases_has_nothing_to_claim() {
    let mut ledger = ledger_with_pool();
    buy_token(&mut ledger, key(2), key(9), 100, 150).unwrap();
    assert_eq!(claim_token(&mut ledger, key(2), key(8), 300).unwrap_err(), ErrorMessage::NothingToClaim);
    assert!(ledger.receipt(key(2), key(8)).is_none());
}

#[test]
fn buyers_and_pools_are_kept_apart() {
    let mut ledger = ledger_with_pool();
    create_pool(&mut ledger, offering(6), 50).unwrap();
    buy_token(&mut ledger, key(2), key(9), 100, 150).unwrap();
    buy_token(&mut ledger, key(2), key(8), 50, 150).unwrap();
    buy_token(&mut ledger, key(6), key(9), 10, 150).unwrap();
    buy_token(&mut ledger, key(2), key(9), 25, 160).unwrap();
    assert_eq!(ledger.pool(key(2)).unwrap().supply_sold(), 350);
    assert_eq!(ledger.pool(key(6)).unwrap().supply_sold(), 20);
    assert_eq!(ledger.receipt(key(2), key(9)).unwrap().amount_purchased(), 250);
    assert_eq!(ledger.receipt(key(2), key(8)).unwrap().amount_purchased(), 100);
    assert_eq!(ledger.receipt(key(6), key(9)).unwrap().amount_purchased(), 20);
    assert!(ledger.receipt(key(6), key(8)).is_none());
    assert_eq!(claim_token(&mut ledger, key(2), key(9), 300).unwrap().tokens, 250);
    assert!(!ledger.receipt(key(2), key(8)).unwrap().is_claimed());
    assert!(!ledger.receipt(key(6), key(9)).unwrap().is_claimed());
    assert_eq!(claim_token(&mut ledger, key(6), key(9), 300).unwrap().tokens, 20);
    assert_eq!(claim_token(&mut ledger, key(2), key(8), 300).unwrap().tokens, 100);
}

#[test]
fn a_purchase_after_the_claim_is_refused() {
    let mut ledger = initialize();
    let mut instant = offering(2);
    instant.end_time = 300;
    create_pool(&mut ledger, instant, 50).unwrap();
    buy_token(&mut ledger, key(2), key(9), 100, 300).unwrap();
    claim_token(&mut ledger, key(2), key(9), 300).unwrap();
    assert_eq!(buy_token(&mut ledger, key(2), key(9), 100, 300).unwrap_err(), ErrorMessage::AlreadyClaimed);
    let record = ledger.receipt(key(2), key(9)).unwrap();
    assert_eq!(record.amount_purchased(), 200);
    assert_eq!(record.amount_claimed(), 200);
    assert_eq!(ledger.pool(key(2)).unwrap().supply_sold(), 200);
}

fn creation_intent(pool: u8) -> Intent {
    Intent::CreatePool {
        id: key(pool),
        currency_asset: key(3),
        sale_asset: key(4),
        start_time: 100,
        end_time: 200,
        claim_time: 300,
        supply_total: 1000,
        rate: 2,
        rate_decimals: 0,
    }
}

#[test]
fn intents_are_carried_out_for_the_caller() {
    let mut ledger = initialize();
    let created = execute(&mut ledger, creation_intent(2), key(1), true, 50).unwrap();
    assert!(created.transfer().is_none());
    match created {
        Outcome::PoolCreated(event) => {
            assert_eq!(event.pool, key(2));
            assert_eq!(event.signer, key(1));
        }
        _ => panic!("a pool was created"),
    }
    assert_eq!(ledger.pool(key(2)).unwrap().creator(), key(1));

    let bought = execute(&mut ledger, Intent::BuyToken { pool_id: key(2), amount: 100 }, key(9), false, 150).unwrap();
    assert_eq!(
        bought.transfer(),
        Some(TransferIntent { asset: key(3), from: Party::Buyer(key(9)), to: Party::Treasury(key(2)), amount: 100 })
    );
    match bought {
        Outcome::Purchased(settled) => assert_eq!(settled.tokens, 200),
        _ => panic!("tokens were bought"),
    }
    assert_eq!(ledger.receipt(key(2), key(9)).unwrap().amount_purchased(), 200);

    let claimed = execute(&mut ledger, Intent::ClaimToken { pool_id: key(2) }, key(9), false, 300).unwrap();
    assert_eq!(
        claimed.transfer(),
        Some(TransferIntent { asset: key(4), from: Party::PoolCustody(key(2)), to: Party::Buyer(key(9)), amount: 200 })
    );
    match claimed {
        Outcome::Claimed(settled) => assert_eq!(settled.tokens, 200),
        _ => panic!("tokens were claimed"),
    }
    assert!(ledger.receipt(key(2), key(9)).unwrap().is_claimed());
}

#[test]
fn only_authorized_callers_create_pools() {
    let mut ledger = initialize();
    assert_eq!(execute(&mut ledger, creation_intent(2), key(1), false, 50).unwrap_err(), ErrorMessage::Unauthorized);
    assert!(ledger.pool(key(2)).is_none());
    // authorization comes before the timing rules
    assert_eq!(execute(&mut ledger, creation_intent(2), key(1), false, 500).unwrap_err(), ErrorMessage::Unauthorized);
    assert_eq!(execute(&mut ledger, creation_intent(2), key(1), true, 500).unwrap_err(), ErrorMessage::StartTimeInPast);
    assert!(ledger.pool(key(2)).is_none());
}

#[test]
fn refused_intents_surface_their_error() {
    let mut ledger = initialize();
    execute(&mut ledger, creation_intent(2), key(1), true, 50).unwrap();
    assert_eq!(execute(&mut ledger, creation_intent(2), key(7), true, 50).unwrap_err(), ErrorMessage::PoolAlreadyExists);
    assert_eq!(ledger.pool(key(2)).unwrap().creator(), key(1));
    let buy = Intent::BuyToken { pool_id: key(2), amount: 0 };
    assert_eq!(execute(&mut ledger, buy, key(9), true, 150).unwrap_err(), ErrorMessage::InvalidAmount);
    let claim = Intent::ClaimToken { pool_id: key(2) };
    assert_eq!(execute(&mut ledger, claim, key(9), true, 300).unwrap_err(), ErrorMessage::NothingToClaim);
    assert_eq!(ledger.pool(key(2)).unwrap().supply_sold(), 0);
}

#[test]
fn every_token_sold_is_in_a_buyers_record() {
    let mut ledger = ledger_with_pool();
    let buyers = [key(7), key(8), key(9)];
    let payments = [(0usize, 10u64), (1, 25), (0, 40), (2, 5), (1, 1), (2, 400), (0, 19)];
    for (who, paid) in payments {
        let before = ledger.pool(key(2)).unwrap().supply_sold();
        match buy_token(&mut ledger, key(2), buyers[who], paid, 150) {
            Ok(settled) => assert_eq!(ledger.pool(key(2)).unwrap().supply_sold(), before + settled.tokens),
            Err(_) => assert_eq!(ledger.pool(key(2)).unwrap().supply_sold(), before),
        }
        let mut recorded = 0u64;
        for buyer in buyers {
            if let Some(record) = ledger.receipt(key(2), buyer) {
                recorded += record.amount_purchased();
            }
        }
        let pool = ledger.pool(key(2)).unwrap();
        assert_eq!(recorded, pool.supply_sold());
        assert!(pool.supply_sold() <= pool.supply_total());
    }
    assert_eq!(ledger.pool(key(2)).unwrap().supply_sold(), 1000);
    // claims move nothing between the pool and the records
    claim_token(&mut ledger, key(2), key(7), 300).unwrap();
    assert_eq!(ledger.pool(key(2)).unwrap().supply_sold(), 1000);
    assert_eq!(ledger.receipt(key(2), key(7)).unwrap().amount_purchased(), 138);
}

#[test]
fn the_public_items_are_at_the_crate_root() {
    assert_eq!(solana_ido::calculate_buy_token(100, 2, 0), Ok(200));
    let mut ledger = solana_ido::initialize();
    let created = solana_ido::create_pool(&mut ledger, offering(2), 50).unwrap();
    assert_eq!(created.pool, key(2));
    assert_eq!(solana_ido::buy_token(&mut ledger, key(2), key(9), 1, 100).unwrap().tokens, 2);
    assert_eq!(solana_ido::claim_token(&mut ledger, key(2), key(9), 300).unwrap().tokens, 2);
    assert_eq!(
        solana_ido::claim_token(&mut ledger, key(2), key(9), 300).unwrap_err(),
        solana_ido::ErrorMessage::AlreadyClaimed
    );
}
