use anchor_lang::prelude::Pubkey;
use morpheus_treasury::address::Address;
use morpheus_treasury::ledger::{Ledger, SECONDS_PER_DAY};
use morpheus_treasury::records::MorpheusError;

fn addr(b: u8) -> Address {
    Address::new([b; 32])
}

fn program() -> Address {
    addr(200)
}

const A: u8 = 1;
const B: u8 = 2;
const C: u8 = 3;
const VAULT: u8 = 10;
const PRICE: u64 = 5_000_000;

fn initialized(price: u64, days: u16) -> Ledger {
    let mut l = Ledger::new(program());
    assert_eq!(l.initialize(addr(A), addr(VAULT), price, days), Ok(()));
    l
}

#[test]
fn scenario_initialize_subscribe_withdraw() {
    let mut l = initialized(PRICE, 30);
    let t = l.treasury().unwrap();
    assert_eq!(t.subscription_price, 5_000_000);
    assert_eq!(t.subscription_days, 30);
    assert_eq!(t.total_subscribers, 0);
    assert_eq!(t.total_revenue, 0);

    let order = l.subscribe_transfer(addr(B), addr(20)).unwrap();
    assert_eq!(order.amount, 5_000_000);
    assert_eq!(order.from.bytes, [20; 32]);
    assert_eq!(order.to.bytes, [VAULT; 32]);
    assert_eq!(order.authority.bytes, [B; 32]);
    assert_eq!(order.signer_bump, None);

    let now: i64 = 1_700_000_000;
    assert_eq!(l.subscribe(addr(B), now, true), Ok(()));
    let s = l.subscription(addr(B)).unwrap();
    assert_eq!(s.subscriber.bytes, [B; 32]);
    assert_eq!(s.started_at, now);
    assert_eq!(s.expires_at, now + 30 * 86400);
    assert!(s.is_active);
    let t = l.treasury().unwrap();
    assert_eq!(t.total_subscribers, 1);
    assert_eq!(t.total_revenue, 5_000_000);

    let w = l.withdraw(addr(A), addr(30), 5_000_000).unwrap();
    assert_eq!(w.amount, 5_000_000);
    assert_eq!(w.from.bytes, [VAULT; 32]);
    assert_eq!(w.to.bytes, [30; 32]);
    assert_eq!(w.signer_bump, Some(t.bump));

    assert_eq!(l.withdraw(addr(B), addr(31), 1).unwrap_err(), MorpheusError::Unauthorized);
}

#[test]
fn subscribe_grows_counters_by_one_price() {
    let mut l = initialized(7, 10);
    assert_eq!(l.subscribe(addr(B), 100, true), Ok(()));
    assert_eq!(l.subscribe(addr(C), 200, true), Ok(()));
    let t = l.treasury().unwrap();
    assert_eq!(t.total_subscribers, 2);
    assert_eq!(t.total_revenue, 14);
}

#[test]
fn check_subscription_expires_lazily() {
    let mut l = initialized(PRICE, 1);
    assert_eq!(l.subscribe(addr(B), 1000, true), Ok(()));
    let end = 1000 + SECONDS_PER_DAY;
    assert_eq!(l.check_subscription(addr(B), 1000), Ok(true));
    assert_eq!(l.check_subscription(addr(B), end - 1), Ok(true));
    assert_eq!(l.check_subscription(addr(B), end), Ok(false));
    assert_eq!(l.check_subscription(addr(B), end + 5), Ok(false));
    assert!(l.subscription(addr(B)).unwrap().is_active);
}

#[test]
fn check_subscription_without_record_is_not_found() {
    let l = initialized(PRICE, 1);
    assert_eq!(l.check_subscription(addr(B), 0), Err(MorpheusError::NotFound));
}

#[test]
fn withdraw_by_stranger_is_unauthorized() {
    let l = initialized(PRICE, 30);
    let before = l.treasury().unwrap();
    assert_eq!(l.withdraw(addr(B), addr(B), 1).unwrap_err(), MorpheusError::Unauthorized);
    assert_eq!(l.withdraw(addr(C), addr(A), 0).unwrap_err(), MorpheusError::Unauthorized);
    let after = l.treasury().unwrap();
    assert_eq!(after.total_revenue, before.total_revenue);
    assert_eq!(after.total_subscribers, before.total_subscribers);
}

#[test]
fn unpaid_subscribe_changes_nothing() {
    let mut l = initialized(PRICE, 30);
    assert_eq!(l.subscribe(addr(B), 5, false), Err(MorpheusError::InsufficientFunds));
    assert!(l.subscription(addr(B)).is_none());
    let t = l.treasury().unwrap();
    assert_eq!(t.total_subscribers, 0);
    assert_eq!(t.total_revenue, 0);
}

#[test]
fn resubscribe_is_refused() {
    let mut l = initialized(PRICE, 30);
    assert_eq!(l.subscribe(addr(B), 5, true), Ok(()));
    assert_eq!(l.subscribe(addr(B), 9, true), Err(MorpheusError::AlreadySubscribed));
    assert_eq!(
        l.subscribe_transfer(addr(B), addr(20)).unwrap_err(),
        MorpheusError::AlreadySubscribed
    );
    let s = l.subscription(addr(B)).unwrap();
    assert_eq!(s.started_at, 5);
    let t = l.treasury().unwrap();
    assert_eq!(t.total_subscribers, 1);
    assert_eq!(t.total_revenue, PRICE);
}

#[test]
fn initialize_twice_is_refused() {
    let mut l = initialized(PRICE, 30);
    assert_eq!(l.initialize(addr(B), addr(B), 1, 1), Err(MorpheusError::AlreadyInitialized));
    let t = l.treasury().unwrap();
    assert_eq!(t.authority.bytes, [A; 32]);
    assert_eq!(t.subscription_price, PRICE);
}

#[test]
fn zero_price_is_accepted() {
    let mut l = initialized(0, 30);
    assert_eq!(l.subscribe(addr(B), 0, true), Ok(()));
    let t = l.treasury().unwrap();
    assert_eq!(t.total_subscribers, 1);
    assert_eq!(t.total_revenue, 0);
}

#[test]
fn operations_before_initialize_are_refused() {
    let mut l = Ledger::new(program());
    assert!(l.treasury().is_none());
    assert_eq!(l.subscribe(addr(B), 0, true), Err(MorpheusError::NotInitialized));
    assert_eq!(l.subscribe_transfer(addr(B), addr(B)).unwrap_err(), MorpheusError::NotInitialized);
    assert_eq!(l.withdraw(addr(A), addr(A), 1).unwrap_err(), MorpheusError::NotInitialized);
    assert_eq!(
        l.store_signal_hash(addr(A), "btc".to_string(), [0; 32], 1),
        Err(MorpheusError::NotInitialized)
    );
}

#[test]
fn revenue_overflow_is_refused() {
    let mut l = initialized(u64::MAX, 30);
    assert_eq!(l.subscribe(addr(B), 0, true), Ok(()));
    assert_eq!(l.subscribe(addr(C), 0, true), Err(MorpheusError::ArithmeticOverflow));
    assert!(l.subscription(addr(C)).is_none());
    assert_eq!(l.treasury().unwrap().total_subscribers, 1);
}

#[test]
fn expiry_overflow_is_refused() {
    let mut l = initialized(PRICE, 1);
    assert_eq!(
        l.subscribe(addr(B), i64::MAX - 86399, true),
        Err(MorpheusError::ArithmeticOverflow)
    );
    assert_eq!(l.subscribe(addr(B), i64::MAX - 86400, true), Ok(()));
    assert_eq!(l.subscription(addr(B)).unwrap().expires_at, i64::MAX);
}

#[test]
fn signal_hash_is_stored_once() {
    let mut l = initialized(PRICE, 30);
    let hash = [7u8; 32];
    assert_eq!(l.store_signal_hash(addr(A), "btc-long-42".to_string(), hash, 77), Ok(()));
    let r = l.signal_record(&"btc-long-42".to_string()).unwrap();
    assert_eq!(r.signal_id, "btc-long-42");
    assert_eq!(r.signal_hash, hash);
    assert_eq!(r.timestamp, 77);
    assert_eq!(r.authority.bytes, [A; 32]);
    assert_eq!(
        l.store_signal_hash(addr(A), "btc-long-42".to_string(), [9; 32], 78),
        Err(MorpheusError::DuplicateSignal)
    );
    assert_eq!(l.signal_record(&"btc-long-42".to_string()).unwrap().signal_hash, hash);
    assert!(l.signal_record(&"eth".to_string()).is_none());
}

#[test]
fn signal_by_stranger_is_unauthorized() {
    let mut l = initialized(PRICE, 30);
    assert_eq!(
        l.store_signal_hash(addr(B), "eth".to_string(), [1; 32], 1),
        Err(MorpheusError::Unauthorized)
    );
    assert!(l.signal_record(&"eth".to_string()).is_none());
}

#[test]
fn signal_id_length_bound() {
    let mut l = initialized(PRICE, 30);
    let longest = "x".repeat(32);
    let too_long = "x".repeat(33);
    assert_eq!(l.store_signal_hash(addr(A), longest.clone(), [1; 32], 1), Ok(()));
    assert_eq!(
        l.store_signal_hash(addr(A), too_long, [1; 32], 1),
        Err(MorpheusError::SignalIdTooLong)
    );
    assert!(l.signal_record(&longest).is_some());
}

#[test]
fn derived_addresses_match_the_runtime() {
    let l = initialized(PRICE, 30);
    let pid = Pubkey::new_from_array([200; 32]);
    let (treasury, bump) = Pubkey::find_program_address(&[b"treasury"], &pid);
    let t = l.treasury().unwrap();
    assert_eq!(t.bump, bump);
    let w = l.withdraw(addr(A), addr(A), 3).unwrap();
    assert_eq!(w.authority.bytes, treasury.to_bytes());
    assert_ne!(w.authority.bytes, [200; 32]);

    let mut l = l;
    assert_eq!(l.subscribe(addr(B), 0, true), Ok(()));
    let (_, sub_bump) = Pubkey::find_program_address(&[b"subscription", &[B; 32]], &pid);
    assert_eq!(l.subscription(addr(B)).unwrap().bump, sub_bump);
    assert_eq!(l.store_signal_hash(addr(A), "sol".to_string(), [2; 32], 3), Ok(()));
    let (_, sig_bump) = Pubkey::find_program_address(&[b"signal", b"sol"], &pid);
    assert_eq!(l.signal_record(&"sol".to_string()).unwrap().bump, sig_bump);
}

#[test]
fn distinct_subscribers_get_distinct_records() {
    let mut l = initialized(PRICE, 30);
    assert_eq!(l.subscribe(addr(B), 10, true), Ok(()));
    assert_eq!(l.subscribe(addr(C), 20, true), Ok(()));
    assert_eq!(l.subscription(addr(B)).unwrap().started_at, 10);
    assert_eq!(l.subscription(addr(C)).unwrap().started_at, 20);
    assert!(l.subscription(addr(A)).is_none());
}

#[test]
fn same_as_compares_every_byte() {
    let mut bytes = [4u8; 32];
    assert!(Address::new(bytes).same_as(&Address::new(bytes)));
    bytes[31] = 5;
    assert!(!Address::new(bytes).same_as(&addr(4)));
}
