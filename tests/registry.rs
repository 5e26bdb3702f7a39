use bankster::{apply_record, process_records, Account, Amount, TransactionError, TransactionRecord, TransactionType};
use std::collections::HashMap;

fn amt(mantissa: i128, scale: u32) -> Amount {
    Amount { mantissa, scale }
}

fn line(tx_type: TransactionType, client: u16, tx_id: u32, amount: Option<Amount>) -> Option<TransactionRecord> {
    Some(TransactionRecord { client, tx_type, tx_id, amount })
}

#[test]
fn basic_data() {
    let lines = vec![
        line(TransactionType::Deposit, 99, 1, Some(amt(10001, 2))),
        line(TransactionType::Deposit, 34, 2, Some(amt(29095, 4))),
        None,
        line(TransactionType::Deposit, 99, 3, Some(amt(999, 2))),
        line(TransactionType::Deposit, 34, 7, Some(amt(471, 1))),
        line(TransactionType::Withdrawal, 34, 5, Some(amt(20, 0))),
    ];
    let records = process_records(&lines);

    assert_eq!(records.len(), 2);
    assert_eq!(records.get(&99).unwrap().available, amt(110, 0));
    assert_eq!(records.get(&34).unwrap().available, amt(300095, 4));
}

#[test]
fn disputed_and_resolved_data() {
    let lines = vec![
        line(TransactionType::Deposit, 33, 3, Some(amt(999, 2))),
        line(TransactionType::Deposit, 33, 4, Some(amt(471, 1))),
        // a dispute line with one field too many does not parse
        None,
        line(TransactionType::Deposit, 99, 1, Some(amt(10001, 2))),
        line(TransactionType::Deposit, 99, 2, Some(amt(29, 1))),
        line(TransactionType::Dispute, 99, 1, Some(amt(0, 0))),
        line(TransactionType::Resolve, 33, 3, Some(amt(0, 0))),
    ];
    let records = process_records(&lines);

    assert_eq!(records.get(&99).unwrap().available, amt(290, 2));
    assert_eq!(records.get(&99).unwrap().held, amt(10001, 2));
    assert_eq!(records.get(&33).unwrap().available, amt(5709, 2));
    assert_eq!(records.get(&33).unwrap().held, amt(0, 0));
}

#[test]
fn chargeback_data() {
    let lines = vec![
        line(TransactionType::Deposit, 33, 3, Some(amt(999, 2))),
        line(TransactionType::Deposit, 33, 4, Some(amt(471, 1))),
        line(TransactionType::Dispute, 33, 3, None),
        line(TransactionType::Deposit, 99, 1, Some(amt(10001, 2))),
        line(TransactionType::Deposit, 99, 2, Some(amt(29, 1))),
        line(TransactionType::Chargeback, 99, 1, None),
        line(TransactionType::Chargeback, 33, 3, None),
    ];
    let records = process_records(&lines);

    // chargeback on 99 invalid because never disputed
    assert_eq!(records.get(&99).unwrap().available, amt(10291, 2));
    assert_eq!(records.get(&99).unwrap().held, amt(0, 0));

    assert_eq!(records.get(&33).unwrap().available, amt(4710, 2));
    assert_eq!(records.get(&33).unwrap().held, amt(0, 0));
}

#[test]
fn invalid_amounts_are_skipped() {
    let lines = vec![
        line(TransactionType::Deposit, 33, 3, Some(amt(999, 2))),
        // an amount that does not parse is read as no amount
        line(TransactionType::Deposit, 33, 4, None),
    ];
    let records = process_records(&lines);

    assert_eq!(records.get(&33).unwrap().available, amt(999, 2));
}

#[test]
fn withdrawal_on_new_client_is_refused() {
    let lines = vec![
        line(TransactionType::Deposit, 99, 1, Some(amt(10001, 2))),
        line(TransactionType::Withdrawal, 34, 2, Some(amt(29, 1))),
        line(TransactionType::Deposit, 99, 3, Some(amt(999, 2))),
    ];
    let records = process_records(&lines);
    assert_eq!(records.get(&99).unwrap().available, amt(11000, 2));
    assert_eq!(records.get(&34).unwrap().available, amt(0, 0));
}

#[test]
fn dispute_and_resolve_on_one_client() {
    let lines = vec![
        line(TransactionType::Deposit, 33, 3, Some(amt(999, 2))),
        line(TransactionType::Deposit, 33, 4, Some(amt(4710, 2))),
        line(TransactionType::Dispute, 33, 3, None),
        line(TransactionType::Resolve, 33, 3, None),
    ];
    let records = process_records(&lines);
    assert_eq!(records.get(&33).unwrap().available, amt(5709, 2));
    assert_eq!(records.get(&33).unwrap().held, amt(0, 2));
}

#[test]
fn dispute_and_chargeback_locks() {
    let lines = vec![
        line(TransactionType::Deposit, 99, 1, Some(amt(10001, 2))),
        line(TransactionType::Deposit, 99, 2, Some(amt(29, 1))),
        line(TransactionType::Dispute, 99, 1, None),
        line(TransactionType::Chargeback, 99, 1, None),
    ];
    let records = process_records(&lines);
    let account = records.get(&99).unwrap();
    assert_eq!(account.available, amt(290, 2));
    assert_eq!(account.held, amt(0, 2));
    assert!(account.locked);
}

#[test]
fn chargeback_never_disputed_keeps_balances() {
    let lines = vec![
        line(TransactionType::Deposit, 99, 1, Some(amt(10001, 2))),
        line(TransactionType::Chargeback, 99, 1, None),
    ];
    let records = process_records(&lines);
    let account = records.get(&99).unwrap();
    assert_eq!(account.available, amt(10001, 2));
    assert_eq!(account.held, amt(0, 0));
    assert!(!account.locked);
}

#[test]
fn malformed_lines_change_nothing() {
    let valid = vec![
        line(TransactionType::Deposit, 33, 3, Some(amt(999, 2))),
        line(TransactionType::Withdrawal, 33, 4, Some(amt(1, 0))),
        line(TransactionType::Deposit, 7, 5, Some(amt(2, 0))),
    ];
    let mixed = vec![None, valid[0], None, valid[1], valid[2], None];
    let a = process_records(&valid);
    let b = process_records(&mixed);
    assert_eq!(a.len(), b.len());
    for (client, account) in &a {
        let other = b.get(client).unwrap();
        assert_eq!(account.available, other.available);
        assert_eq!(account.held, other.held);
        assert_eq!(account.locked, other.locked);
    }
    assert_eq!(b.get(&33).unwrap().available, amt(899, 2));
}

#[test]
fn apply_record_creates_accounts_lazily() {
    let mut accounts: HashMap<u16, Account> = HashMap::new();
    let r = apply_record(
        &mut accounts,
        &TransactionRecord { client: 5, tx_type: TransactionType::Withdrawal, tx_id: 1, amount: Some(amt(1, 0)) },
    );
    assert_eq!(r, Err(TransactionError::InsufficientFunds));
    assert_eq!(accounts.len(), 1);
    let r = apply_record(
        &mut accounts,
        &TransactionRecord { client: 5, tx_type: TransactionType::Deposit, tx_id: 2, amount: Some(amt(3, 0)) },
    );
    assert_eq!(r, Ok(()));
    assert_eq!(accounts.get(&5).unwrap().available, amt(3, 0));
}
