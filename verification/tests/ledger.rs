use openxai_indexer::ledger::{InsertOutcome, Ledger};
use openxai_indexer::rows::DatabaseParticipated;
use openxai_indexer::tiers::{claim_multiplier, credit_multiplier, derive_claim, derive_credit};

fn participation(
    tier: i64,
    account: &str,
    amount: i64,
    transaction_hash: &str,
    log_index: i64,
) -> DatabaseParticipated {
    DatabaseParticipated {
        tier,
        account: account.to_string(),
        amount,
        transaction_hash: transaction_hash.to_string(),
        log_index,
    }
}

#[test]
fn test_claim_multiplier_values() {
    assert_eq!(claim_multiplier(0), 100000);
    assert_eq!(claim_multiplier(2), 97087);
    assert_eq!(claim_multiplier(15), 80000);
    assert_eq!(claim_multiplier(16), 0);
    assert_eq!(claim_multiplier(-1), 0);
}

#[test]
fn test_credit_multiplier_values() {
    assert_eq!(credit_multiplier(0), 1559);
    assert_eq!(credit_multiplier(14), 403);
    assert_eq!(credit_multiplier(15), 0);
    assert_eq!(credit_multiplier(99), 0);
}

#[test]
fn test_claim_multiplier_non_increasing() {
    let mut previous = claim_multiplier(0);
    for tier in 1..=15i64 {
        let current = claim_multiplier(tier);
        assert!(current <= previous);
        previous = current;
    }
}

#[test]
fn test_derive_claim_tier_two_scenario() {
    // floor(1_000_000 * 9.7087) == 9_708_700
    assert_eq!(derive_claim(1_000_000, 2), 9_708_700);
}

#[test]
fn test_derive_claim_truncates_toward_zero() {
    // 3 * 9.8522 = 29.5566, truncated to 29
    assert_eq!(derive_claim(3, 1), 29);
    // tier outside the table earns nothing
    assert_eq!(derive_claim(1_000_000, 16), 0);
    assert_eq!(derive_claim(1_000_000, -3), 0);
}

#[test]
fn test_derive_credit_values() {
    assert_eq!(derive_credit(1_000_000, 0), 155_900);
    assert_eq!(derive_credit(1_000_000, 2), 90_000);
    assert_eq!(derive_credit(1_000_000, 15), 0);
}

#[test]
fn test_derive_claim_caps_at_i64_max() {
    // The product exceeds the storable range and is capped
    assert_eq!(derive_claim(i64::MAX, 0), i64::MAX);
}

#[test]
fn test_insert_event_scenario() {
    // event {tier: 2, account: "0xABC...", amount: 1_000_000,
    //        tx: "0xdead...", log_index: 0}
    let mut ledger = Ledger::new();
    let account = String::from("0xABC0000000000000000000000000000000000000");
    let event = participation(2, &account, 1_000_000, "0xdead", 0);

    let first = ledger.insert_event(&event);
    assert_eq!(
        first,
        InsertOutcome::Inserted { claim_applied: true, credit_applied: true }
    );
    assert_eq!(ledger.claim_total(&account), 9_708_700);
    assert_eq!(ledger.credit_total(&account), 90_000);

    // Re-ingesting the identical event produces no further change
    let second = ledger.insert_event(&event);
    assert_eq!(second, InsertOutcome::Duplicate);
    assert_eq!(ledger.claim_total(&account), 9_708_700);
    assert_eq!(ledger.credit_total(&account), 90_000);
}

#[test]
fn test_insert_idempotent_matches_single_insert() {
    let account = String::from("0xFeedFace");
    let event = participation(1, &account, 500, "0xbeef", 7);

    let mut once = Ledger::new();
    once.insert_event(&event);

    let mut twice = Ledger::new();
    twice.insert_event(&event);
    twice.insert_event(&event);

    assert_eq!(once.claim_total(&account), twice.claim_total(&account));
    assert_eq!(once.credit_total(&account), twice.credit_total(&account));
}

#[test]
fn test_same_hash_different_log_index_both_count() {
    let mut ledger = Ledger::new();
    let account = String::from("0xA");
    let e0 = participation(0, &account, 100, "0xsame", 0);
    let e1 = participation(0, &account, 100, "0xsame", 1);

    assert!(matches!(
        ledger.insert_event(&e0),
        InsertOutcome::Inserted { .. }
    ));
    assert!(matches!(
        ledger.insert_event(&e1),
        InsertOutcome::Inserted { .. }
    ));
    assert_eq!(ledger.claim_total(&account), 2_000);
    assert_eq!(ledger.credit_total(&account), 30);
}

#[test]
fn test_accounts_aggregate_independently() {
    let mut ledger = Ledger::new();
    let alice = String::from("0xAlice");
    let bob = String::from("0xBob");

    ledger.insert_event(&participation(0, &alice, 10, "0x1", 0));
    ledger.insert_event(&participation(0, &bob, 20, "0x2", 0));
    ledger.insert_event(&participation(0, &alice, 30, "0x3", 0));

    assert_eq!(ledger.claim_total(&alice), 400);
    assert_eq!(ledger.claim_total(&bob), 200);
    assert_eq!(ledger.claim_total(&String::from("0xCarol")), 0);
}

#[test]
fn test_overflowing_aggregate_write_is_dropped() {
    let mut ledger = Ledger::new();
    let account = String::from("0xWhale");
    // Each event derives the capped maximum claim amount
    let e0 = participation(0, &account, i64::MAX, "0xbig", 0);
    let e1 = participation(0, &account, i64::MAX, "0xbig", 1);

    let first = ledger.insert_event(&e0);
    assert_eq!(
        first,
        InsertOutcome::Inserted { claim_applied: true, credit_applied: true }
    );
    assert_eq!(ledger.claim_total(&account), i64::MAX);

    // The second derived claim cannot be added without leaving the
    // storable range: the event is recorded, the write is dropped
    let second = ledger.insert_event(&e1);
    match second {
        InsertOutcome::Inserted { claim_applied, credit_applied } => {
            assert!(!claim_applied);
            assert!(credit_applied);
        },
        InsertOutcome::Duplicate => panic!("distinct key must not be a duplicate"),
    }
    assert_eq!(ledger.claim_total(&account), i64::MAX);
}
