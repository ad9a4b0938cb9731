use std::collections::HashMap;

use process_tx::account::Account;
use process_tx::amount::parse_amount;
use process_tx::engine::Engine;
use process_tx::error::Transaction as TransactionError;
use process_tx::transaction::{Transaction, Type};

fn units(text: &str) -> i64 {
    parse_amount(text).expect("amount text")
}

fn record(t_type: Type, client: u16, tx: u32, amount: Option<&str>) -> Transaction {
    Transaction { t_type, client, tx, amount: amount.map(units), disputed: false }
}

fn balances(engine: &Engine, client: u16) -> (i64, i64, i64, bool) {
    let a = engine.accounts.get(&client).expect("account");
    (a.available, a.held, a.total, a.locked)
}

fn snapshot(engine: &Engine) -> (HashMap<u16, Account>, HashMap<u32, Transaction>) {
    (engine.accounts.clone(), engine.transactions.clone())
}

fn assert_consistent(engine: &Engine) {
    for account in engine.accounts.values() {
        assert_eq!(account.total as i128, account.available as i128 + account.held as i128);
    }
}

#[test]
fn scenario_single_deposit() {
    let mut engine = Engine::new();
    assert_eq!(engine.process_transaction(record(Type::Deposit, 1, 1, Some("1000.0"))), Ok(()));
    assert_eq!(balances(&engine, 1), (units("1000.0"), 0, units("1000.0"), false));
}

#[test]
fn scenario_overdraft_is_refused() {
    let mut engine = Engine::new();
    engine.process_transaction(record(Type::Deposit, 1, 1, Some("300.0"))).unwrap();
    let before = snapshot(&engine);
    assert_eq!(
        engine.process_transaction(record(Type::Withdrawal, 1, 2, Some("500.0"))),
        Err(TransactionError::InsufficientFunds(1))
    );
    assert_eq!(balances(&engine, 1), (units("300.0"), 0, units("300.0"), false));
    assert_eq!(snapshot(&engine), before);
}

#[test]
fn scenario_chargeback_locks_account() {
    let mut engine = Engine::new();
    engine.process_transaction(record(Type::Deposit, 1, 1, Some("400.0"))).unwrap();
    engine.process_transaction(record(Type::Dispute, 1, 1, None)).unwrap();
    engine.process_transaction(record(Type::Chargeback, 1, 1, None)).unwrap();
    assert_eq!(balances(&engine, 1), (0, 0, 0, true));
    let before = snapshot(&engine);
    assert_eq!(
        engine.process_transaction(record(Type::Deposit, 1, 2, Some("100.0"))),
        Err(TransactionError::AccountLocked(1))
    );
    assert_eq!(snapshot(&engine), before);
}

#[test]
fn scenario_dispute_of_unknown_transaction() {
    let mut engine = Engine::new();
    assert_eq!(
        engine.process_transaction(record(Type::Dispute, 1, 999, None)),
        Err(TransactionError::NotFound(999, 1))
    );
    assert!(engine.accounts.is_empty());
    assert!(engine.transactions.is_empty());
}

#[test]
fn scenario_withdrawal_cannot_be_disputed() {
    let mut engine = Engine::new();
    engine.process_transaction(record(Type::Deposit, 1, 1, Some("500.0"))).unwrap();
    engine.process_transaction(record(Type::Withdrawal, 1, 2, Some("200.0"))).unwrap();
    assert_eq!(
        engine.process_transaction(record(Type::Dispute, 1, 2, None)),
        Err(TransactionError::InvalidDispute(2))
    );
    assert_eq!(balances(&engine, 1), (units("300.0"), 0, units("300.0"), false));
}

#[test]
fn balances_stay_consistent_over_a_stream() {
    let mut engine = Engine::new();
    let stream = [
        record(Type::Deposit, 1, 1, Some("10.5")),
        record(Type::Deposit, 2, 2, Some("3.25")),
        record(Type::Withdrawal, 1, 3, Some("4.0")),
        record(Type::Dispute, 1, 1, None),
        record(Type::Withdrawal, 1, 4, Some("1.0")),
        record(Type::Resolve, 1, 1, None),
        record(Type::Dispute, 2, 2, None),
        record(Type::Chargeback, 2, 2, None),
        record(Type::Deposit, 2, 5, Some("1.0")),
        record(Type::Dispute, 1, 3, None),
    ];
    for t in stream {
        let _ = engine.process_transaction(t);
        assert_consistent(&engine);
    }
    assert_eq!(balances(&engine, 1), (units("6.5"), 0, units("6.5"), false));
    assert_eq!(balances(&engine, 2), (0, 0, 0, true));
}

#[test]
fn locked_account_refuses_every_kind() {
    let mut engine = Engine::new();
    engine.process_transaction(record(Type::Deposit, 4, 1, Some("50.0"))).unwrap();
    engine.process_transaction(record(Type::Deposit, 4, 2, Some("20.0"))).unwrap();
    engine.process_transaction(record(Type::Dispute, 4, 1, None)).unwrap();
    engine.process_transaction(record(Type::Chargeback, 4, 1, None)).unwrap();
    let before = balances(&engine, 4);
    assert_eq!(before, (units("20.0"), 0, units("20.0"), true));
    let later = [
        record(Type::Deposit, 4, 3, Some("1.0")),
        record(Type::Withdrawal, 4, 4, Some("1.0")),
        record(Type::Dispute, 4, 2, None),
        record(Type::Resolve, 4, 1, None),
        record(Type::Chargeback, 4, 2, None),
    ];
    for t in later {
        assert_eq!(engine.process_transaction(t), Err(TransactionError::AccountLocked(4)));
        assert_eq!(balances(&engine, 4), before);
    }
}

#[test]
fn failed_calls_leave_ledger_unchanged() {
    let mut engine = Engine::new();
    engine.process_transaction(record(Type::Deposit, 1, 1, Some("5.0"))).unwrap();
    let failing = [
        record(Type::Deposit, 1, 2, None),
        record(Type::Withdrawal, 9, 3, Some("1.0")),
        record(Type::Withdrawal, 1, 3, Some("6.0")),
        record(Type::Resolve, 1, 1, None),
        record(Type::Chargeback, 1, 1, None),
        record(Type::Dispute, 2, 1, None),
    ];
    for t in failing {
        let before = snapshot(&engine);
        assert!(engine.process_transaction(t).is_err());
        assert_eq!(snapshot(&engine), before);
    }
}

#[test]
fn dispute_then_resolve_restores_balances() {
    let mut engine = Engine::new();
    engine.process_transaction(record(Type::Deposit, 1, 1, Some("250.75"))).unwrap();
    let after_deposit = snapshot(&engine);
    engine.process_transaction(record(Type::Dispute, 1, 1, None)).unwrap();
    assert_eq!(balances(&engine, 1), (0, units("250.75"), units("250.75"), false));
    engine.process_transaction(record(Type::Resolve, 1, 1, None)).unwrap();
    assert_eq!(snapshot(&engine), after_deposit);
}

#[test]
fn withdrawal_by_unknown_client() {
    let mut engine = Engine::new();
    assert_eq!(
        engine.process_transaction(record(Type::Withdrawal, 3, 1, Some("1.0"))),
        Err(TransactionError::AccountNotFound(3))
    );
    assert!(engine.accounts.is_empty());
}

#[test]
fn resolve_of_unknown_transaction() {
    let mut engine = Engine::new();
    engine.process_transaction(record(Type::Deposit, 1, 1, Some("1.0"))).unwrap();
    assert_eq!(
        engine.process_transaction(record(Type::Resolve, 1, 42, None)),
        Err(TransactionError::NotUnderDispute(42))
    );
    assert_eq!(
        engine.process_transaction(record(Type::Chargeback, 1, 42, None)),
        Err(TransactionError::NotUnderDispute(42))
    );
}

#[test]
fn dispute_of_another_clients_deposit() {
    let mut engine = Engine::new();
    engine.process_transaction(record(Type::Deposit, 1, 1, Some("1.0"))).unwrap();
    engine.process_transaction(record(Type::Deposit, 2, 2, Some("1.0"))).unwrap();
    assert_eq!(
        engine.process_transaction(record(Type::Dispute, 2, 1, None)),
        Err(TransactionError::AlreadyDisputed(1))
    );
    assert_eq!(balances(&engine, 2), (units("1.0"), 0, units("1.0"), false));
}

#[test]
fn deposit_overflow_is_refused() {
    let mut engine = Engine::new();
    engine
        .process_transaction(Transaction {
            t_type: Type::Deposit,
            client: 1,
            tx: 1,
            amount: Some(i64::MAX),
            disputed: false,
        })
        .unwrap();
    let before = snapshot(&engine);
    assert_eq!(
        engine.process_transaction(Transaction {
            t_type: Type::Deposit,
            client: 1,
            tx: 2,
            amount: Some(1),
            disputed: false,
        }),
        Err(TransactionError::Overflow(2))
    );
    assert_eq!(snapshot(&engine), before);
}

#[test]
fn repeated_transaction_id_overwrites_record() {
    let mut engine = Engine::new();
    engine.process_transaction(record(Type::Deposit, 1, 1, Some("5.0"))).unwrap();
    engine.process_transaction(record(Type::Deposit, 1, 1, Some("2.0"))).unwrap();
    assert_eq!(balances(&engine, 1), (units("7.0"), 0, units("7.0"), false));
    assert_eq!(engine.transactions.get(&1).and_then(|t| t.amount), Some(units("2.0")));
    engine.process_transaction(record(Type::Dispute, 1, 1, None)).unwrap();
    assert_eq!(balances(&engine, 1), (units("5.0"), units("2.0"), units("7.0"), false));
}
