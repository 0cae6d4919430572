//! The engine processed against whole event sequences, checking the final
//! account table.  Amounts count ten-thousandths of a currency unit, so
//! for example 12.34 currency units are written 123400.

use ledger::process_transactions;
use ledger::Transaction;
use ledger::TransactionType;

fn tx(kind: TransactionType, client_id: u16, id: u32, amount: Option<u64>) -> Transaction {
    Transaction { kind, client_id, id, amount }
}

#[test]
fn test_deposit_funds_multiple_clients() {
    let records = vec![
        tx(TransactionType::Deposit, 1, 1, Some(12340)),
        tx(TransactionType::Deposit, 1, 3, Some(123400)),
        tx(TransactionType::Deposit, 2, 2, Some(1234)),
        tx(TransactionType::Deposit, 2, 4, Some(123400)),
        tx(TransactionType::Deposit, 1, 5, Some(1234)),
    ];

    let clients = process_transactions(&records);
    let client_1 = clients.get(&1).unwrap();

    assert_eq!(client_1.available_funds, 136974);
    assert_eq!(client_1.total_funds, 136974);
    assert_eq!(client_1.held_funds, 0);
    assert!(!client_1.locked);

    let client_2 = clients.get(&2).unwrap();

    assert_eq!(client_2.available_funds, 124634);
    assert_eq!(client_2.total_funds, 124634);
    assert_eq!(client_2.held_funds, 0);
    assert!(!client_2.locked);
}

#[test]
fn test_withdraw_funds_multiple_clients() {
    let records = vec![
        tx(TransactionType::Deposit, 1, 1, Some(1234000)),
        tx(TransactionType::Deposit, 2, 2, Some(125600)),
        tx(TransactionType::Withdrawal, 2, 3, Some(1234)),
        tx(TransactionType::Withdrawal, 2, 4, Some(123400)),
        tx(TransactionType::Withdrawal, 1, 5, Some(12340)),
    ];

    let clients = process_transactions(&records);
    let client_1 = clients.get(&1).unwrap();

    assert_eq!(client_1.available_funds, 1221660);
    assert_eq!(client_1.total_funds, 1221660);
    assert_eq!(client_1.held_funds, 0);
    assert!(!client_1.locked);

    let client_2 = clients.get(&2).unwrap();

    assert_eq!(client_2.available_funds, 966);
    assert_eq!(client_2.total_funds, 966);
    assert_eq!(client_2.held_funds, 0);
    assert!(!client_2.locked);
}

#[test]
fn test_withdraw_from_insufficient_balance() {
    let records = vec![
        tx(TransactionType::Deposit, 1, 1, Some(123400)),
        tx(TransactionType::Withdrawal, 1, 2, Some(12560)),
        tx(TransactionType::Withdrawal, 1, 5, Some(1234000)),
    ];

    let clients = process_transactions(&records);
    let client_1 = clients.get(&1).unwrap();

    assert_eq!(client_1.available_funds, 110840);
    assert_eq!(client_1.total_funds, 110840);
    assert_eq!(client_1.held_funds, 0);
    assert!(!client_1.locked);
}

#[test]
fn test_transaction_id_repeated_for_withdraw() {
    let records = vec![
        tx(TransactionType::Deposit, 1, 1, Some(123400)),
        tx(TransactionType::Withdrawal, 1, 2, Some(12560)),
        tx(TransactionType::Withdrawal, 1, 2, Some(1234)),
    ];

    let clients = process_transactions(&records);
    let client_1 = clients.get(&1).unwrap();

    assert_eq!(client_1.available_funds, 110840);
    assert_eq!(client_1.total_funds, 110840);
    assert_eq!(client_1.held_funds, 0);
    assert!(!client_1.locked);
}

#[test]
fn test_transaction_id_repeated_for_deposit() {
    let records = vec![
        tx(TransactionType::Deposit, 1, 1, Some(123400)),
        tx(TransactionType::Deposit, 1, 1, Some(12560)),
    ];

    let clients = process_transactions(&records);
    let client_1 = clients.get(&1).unwrap();

    assert_eq!(client_1.available_funds, 123400);
    assert_eq!(client_1.total_funds, 123400);
    assert_eq!(client_1.held_funds, 0);
    assert!(!client_1.locked);
}

#[test]
fn test_open_dispute_for_transaction() {
    let records = vec![
        tx(TransactionType::Deposit, 1, 1, Some(123400)),
        tx(TransactionType::Deposit, 1, 2, Some(12560)),
        tx(TransactionType::Dispute, 1, 1, None),
    ];

    let clients = process_transactions(&records);
    let client_1 = clients.get(&1).unwrap();

    assert_eq!(client_1.available_funds, 12560);
    assert_eq!(client_1.total_funds, 135960);
    assert_eq!(client_1.held_funds, 123400);
    assert!(!client_1.locked);
}

#[test]
fn test_open_dispute_with_insufficient_funds() {
    let records = vec![
        tx(TransactionType::Deposit, 1, 1, Some(123400)),
        tx(TransactionType::Withdrawal, 1, 2, Some(12340)),
        tx(TransactionType::Dispute, 1, 1, None),
    ];

    let clients = process_transactions(&records);
    let client_1 = clients.get(&1).unwrap();

    assert_eq!(client_1.available_funds, 111060);
    assert_eq!(client_1.total_funds, 111060);
    assert_eq!(client_1.held_funds, 0);
    assert!(!client_1.locked);
}

#[test]
fn test_resolve_opened_dispute() {
    let records = vec![
        tx(TransactionType::Deposit, 1, 1, Some(123400)),
        tx(TransactionType::Dispute, 1, 1, None),
        tx(TransactionType::Resolve, 1, 1, None),
    ];

    let clients = process_transactions(&records);
    let client_1 = clients.get(&1).unwrap();

    assert_eq!(client_1.available_funds, 123400);
    assert_eq!(client_1.total_funds, 123400);
    assert_eq!(client_1.held_funds, 0);
    assert!(!client_1.locked);
}

#[test]
fn test_chargeback_opened_dispute() {
    let records = vec![
        tx(TransactionType::Deposit, 1, 1, Some(123400)),
        tx(TransactionType::Deposit, 1, 3, Some(1234)),
        tx(TransactionType::Deposit, 1, 2, Some(12340)),
        tx(TransactionType::Dispute, 1, 1, None),
        tx(TransactionType::Dispute, 1, 2, None),
        tx(TransactionType::Chargeback, 1, 1, None),
    ];

    let clients = process_transactions(&records);
    let client_1 = clients.get(&1).unwrap();

    assert_eq!(client_1.available_funds, 1234);
    assert_eq!(client_1.total_funds, 13574);
    assert_eq!(client_1.held_funds, 12340);
    assert!(client_1.locked);
}

#[test]
fn test_transactions_after_account_locked() {
    let records = vec![
        tx(TransactionType::Deposit, 1, 1, Some(123400)),
        tx(TransactionType::Deposit, 1, 2, Some(12340)),
        tx(TransactionType::Dispute, 1, 2, None),
        tx(TransactionType::Chargeback, 1, 2, None),
        tx(TransactionType::Deposit, 1, 4, Some(657800)),
        tx(TransactionType::Withdrawal, 1, 3, Some(65780)),
        tx(TransactionType::Dispute, 1, 3, None),
    ];

    let clients = process_transactions(&records);
    let client_1 = clients.get(&1).unwrap();

    assert_eq!(client_1.available_funds, 123400);
    assert_eq!(client_1.total_funds, 123400);
    assert_eq!(client_1.held_funds, 0);
    assert!(client_1.locked);
}

#[test]
fn test_ignore_chargeback_if_not_disputed() {
    let records = vec![
        tx(TransactionType::Deposit, 1, 1, Some(123400)),
        tx(TransactionType::Deposit, 1, 2, Some(12340)),
        tx(TransactionType::Chargeback, 1, 2, None),
    ];

    let clients = process_transactions(&records);
    let client_1 = clients.get(&1).unwrap();

    assert_eq!(client_1.available_funds, 135740);
    assert_eq!(client_1.total_funds, 135740);
    assert_eq!(client_1.held_funds, 0);
    assert!(!client_1.locked);
}

#[test]
fn test_ignore_resolve_if_not_disputed() {
    let records = vec![
        tx(TransactionType::Deposit, 1, 1, Some(123400)),
        tx(TransactionType::Deposit, 1, 2, Some(12340)),
        tx(TransactionType::Resolve, 1, 2, None),
    ];

    let clients = process_transactions(&records);
    let client_1 = clients.get(&1).unwrap();

    assert_eq!(client_1.available_funds, 135740);
    assert_eq!(client_1.total_funds, 135740);
    assert_eq!(client_1.held_funds, 0);
    assert!(!client_1.locked);
}

#[test]
fn test_ignore_dispute_if_already_disputed() {
    let records = vec![
        tx(TransactionType::Deposit, 1, 1, Some(123400)),
        tx(TransactionType::Deposit, 1, 2, Some(12340)),
        tx(TransactionType::Dispute, 1, 2, None),
        tx(TransactionType::Dispute, 1, 2, None),
    ];

    let clients = process_transactions(&records);
    let client_1 = clients.get(&1).unwrap();

    assert_eq!(client_1.available_funds, 123400);
    assert_eq!(client_1.total_funds, 135740);
    assert_eq!(client_1.held_funds, 12340);
    assert!(!client_1.locked);
}

#[test]
fn test_ignore_dispute_if_tx_of_withdrawal() {
    let records = vec![
        tx(TransactionType::Deposit, 1, 1, Some(123400)),
        tx(TransactionType::Withdrawal, 1, 2, Some(12340)),
        tx(TransactionType::Dispute, 1, 2, None),
    ];

    let clients = process_transactions(&records);
    let client_1 = clients.get(&1).unwrap();

    assert_eq!(client_1.available_funds, 111060);
    assert_eq!(client_1.total_funds, 111060);
    assert_eq!(client_1.held_funds, 0);
    assert!(!client_1.locked);
}

#[test]
fn test_ignore_dispute_if_tx_and_client_dont_match() {
    let records = vec![
        tx(TransactionType::Deposit, 1, 1, Some(123400)),
        tx(TransactionType::Deposit, 2, 2, Some(12340)),
        tx(TransactionType::Dispute, 1, 2, None),
    ];

    let clients = process_transactions(&records);
    let client_1 = clients.get(&1).unwrap();

    assert_eq!(client_1.available_funds, 123400);
    assert_eq!(client_1.total_funds, 123400);
    assert_eq!(client_1.held_funds, 0);
    assert!(!client_1.locked);

    let client_1 = clients.get(&2).unwrap();

    assert_eq!(client_1.available_funds, 12340);
    assert_eq!(client_1.total_funds, 12340);
    assert_eq!(client_1.held_funds, 0);
    assert!(!client_1.locked);
}

#[test]
fn test_ignore_resolve_if_tx_and_client_dont_match() {
    let records = vec![
        tx(TransactionType::Deposit, 1, 1, Some(123400)),
        tx(TransactionType::Deposit, 2, 2, Some(12340)),
        tx(TransactionType::Dispute, 1, 1, None),
        tx(TransactionType::Resolve, 1, 2, None),
    ];

    let clients = process_transactions(&records);
    let client_1 = clients.get(&1).unwrap();

    assert_eq!(client_1.available_funds, 0);
    assert_eq!(client_1.total_funds, 123400);
    assert_eq!(client_1.held_funds, 123400);
    assert!(!client_1.locked);

    let client_1 = clients.get(&2).unwrap();

    assert_eq!(client_1.available_funds, 12340);
    assert_eq!(client_1.total_funds, 12340);
    assert_eq!(client_1.held_funds, 0);
    assert!(!client_1.locked);
}

#[test]
fn test_ignore_resolve_if_invalid_tx_id() {
    let records = vec![
        tx(TransactionType::Deposit, 1, 1, Some(123400)),
        tx(TransactionType::Dispute, 1, 1, None),
        tx(TransactionType::Resolve, 1, 2, None),
    ];

    let clients = process_transactions(&records);
    let client_1 = clients.get(&1).unwrap();

    assert_eq!(client_1.available_funds, 0);
    assert_eq!(client_1.total_funds, 123400);
    assert_eq!(client_1.held_funds, 123400);
    assert!(!client_1.locked);
}

#[test]
fn test_ignore_dispute_if_invalid_tx_id() {
    let records = vec![
        tx(TransactionType::Deposit, 1, 1, Some(123400)),
        tx(TransactionType::Dispute, 1, 3, None),
    ];

    let clients = process_transactions(&records);
    let client_1 = clients.get(&1).unwrap();

    assert_eq!(client_1.available_funds, 123400);
    assert_eq!(client_1.total_funds, 123400);
    assert_eq!(client_1.held_funds, 0);
    assert!(!client_1.locked);
}

#[test]
fn test_ignore_deposit_if_amount_is_none() {
    let records = vec![
        tx(TransactionType::Deposit, 1, 1, Some(123400)),
        tx(TransactionType::Deposit, 1, 2, None),
    ];

    let clients = process_transactions(&records);
    let client_1 = clients.get(&1).unwrap();

    assert_eq!(client_1.available_funds, 123400);
    assert_eq!(client_1.total_funds, 123400);
    assert_eq!(client_1.held_funds, 0);
    assert!(!client_1.locked);
}

#[test]
fn test_ignore_withdrawal_if_amount_is_none() {
    let records = vec![
        tx(TransactionType::Deposit, 1, 1, Some(123400)),
        tx(TransactionType::Withdrawal, 1, 2, None),
    ];

    let clients = process_transactions(&records);
    let client_1 = clients.get(&1).unwrap();

    assert_eq!(client_1.available_funds, 123400);
    assert_eq!(client_1.total_funds, 123400);
    assert_eq!(client_1.held_funds, 0);
    assert!(!client_1.locked);
}
