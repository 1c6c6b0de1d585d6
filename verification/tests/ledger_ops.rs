use unwalled_node::ledger::{Ledger, LedgerError};
use unwalled_node::settlement::SettlementManager;

#[test]
fn unknown_address_reads_zero() {
    let ledger = Ledger::new();
    assert_eq!(ledger.get_balance(&"abcd".to_string()), 0);
    assert_eq!(ledger.get_next_nonce(&"abcd".to_string()), 0);
}

#[test]
fn credit_then_debit() {
    let mut ledger = Ledger::new();
    let addr = "aa".to_string();
    assert!(ledger.credit(&addr, 100).is_ok());
    assert_eq!(ledger.get_balance(&addr), 100);
    assert!(ledger.debit(&addr, 40).is_ok());
    assert_eq!(ledger.get_balance(&addr), 60);
}

#[test]
fn debit_insufficient_funds_changes_nothing() {
    let mut ledger = Ledger::new();
    let addr = "aa".to_string();
    assert!(ledger.credit(&addr, 10).is_ok());
    assert_eq!(ledger.debit(&addr, 11), Err(LedgerError::InsufficientFunds));
    assert_eq!(ledger.get_balance(&addr), 10);
    assert_eq!(ledger.debit(&"other".to_string(), 1), Err(LedgerError::InsufficientFunds));
}

#[test]
fn credit_overflow_changes_nothing() {
    let mut ledger = Ledger::new();
    let addr = "aa".to_string();
    assert!(ledger.credit(&addr, u64::MAX).is_ok());
    assert_eq!(ledger.credit(&addr, 1), Err(LedgerError::BalanceOverflow));
    assert_eq!(ledger.get_balance(&addr), u64::MAX);
}

#[test]
fn accounts_are_independent() {
    let mut ledger = Ledger::new();
    let a = "aa".to_string();
    let b = "bb".to_string();
    assert!(ledger.credit(&a, 5).is_ok());
    assert!(ledger.credit(&b, 7).is_ok());
    assert!(ledger.debit(&a, 2).is_ok());
    assert_eq!(ledger.get_balance(&a), 3);
    assert_eq!(ledger.get_balance(&b), 7);
}

#[test]
fn nonce_counter_advances_by_one() {
    let mut ledger = Ledger::new();
    let addr = "aa".to_string();
    assert_eq!(ledger.get_and_increment_nonce(&addr), 0);
    assert_eq!(ledger.get_and_increment_nonce(&addr), 1);
    assert_eq!(ledger.get_next_nonce(&addr), 2);
    assert_eq!(ledger.get_balance(&addr), 0);
}

#[test]
fn settlement_onboard_and_offboard() {
    let settlement = SettlementManager::new();
    let mut ledger = Ledger::new();
    let addr = "cafe".to_string();
    assert!(settlement.onboard_funds(&mut ledger, &addr, 250).is_ok());
    assert_eq!(ledger.get_balance(&addr), 250);
    assert!(settlement.offboard_funds(&mut ledger, &addr, 100).is_ok());
    assert_eq!(ledger.get_balance(&addr), 150);
    assert_eq!(
        settlement.offboard_funds(&mut ledger, &addr, 151),
        Err(LedgerError::InsufficientFunds)
    );
    assert_eq!(ledger.get_balance(&addr), 150);
}
