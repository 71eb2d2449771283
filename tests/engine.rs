use payment_engine::account::Account;
use payment_engine::amount::Amount;
use payment_engine::engine::PaymentEngine;
use payment_engine::ledger::Outcome;
use payment_engine::transaction::{Transaction, TransactionStatus, TransactionType};

fn event(tx_type: TransactionType, client: u16, id: u32, amount: Option<u64>) -> Transaction {
    Transaction {
        id,
        tx_type,
        account: client,
        amount: amount.map(Amount::new),
        status: TransactionStatus::Unprocessed,
    }
}

fn deposit(client: u16, id: u32, amount: u64) -> Transaction {
    event(TransactionType::Deposit, client, id, Some(amount))
}

fn withdrawal(client: u16, id: u32, amount: u64) -> Transaction {
    event(TransactionType::Withdrawal, client, id, Some(amount))
}

fn dispute(client: u16, id: u32) -> Transaction {
    event(TransactionType::Dispute, client, id, None)
}

fn resolve(client: u16, id: u32) -> Transaction {
    event(TransactionType::Resolve, client, id, None)
}

fn chargeback(client: u16, id: u32) -> Transaction {
    event(TransactionType::Chargeback, client, id, None)
}

fn run(events: Vec<Transaction>) -> (PaymentEngine, Vec<Outcome>) {
    let mut engine = PaymentEngine::new();
    let mut outcomes = Vec::new();
    for tx in events {
        outcomes.push(engine.apply_transaction(tx));
    }
    (engine, outcomes)
}

#[test]
fn input_1() {
    let (engine, _) = run(vec![deposit(1, 1, 15000)]);
    let client = engine.account(1).expect("client 1 has an account");
    assert_eq!(client.locked, false);
    assert_eq!(client.available, 15000);
    assert_eq!(client.held, 0);
}

#[test]
fn input_disput() {
    let (engine, _) = run(vec![deposit(1, 1, 15000), dispute(1, 1)]);
    let client = engine.account(1).expect("client 1 has an account");
    assert_eq!(client.locked, false);
    assert_eq!(client.available, 0);
    assert_eq!(client.held, 15000);
}

#[test]
fn input_resolve() {
    let (engine, outcomes) = run(vec![deposit(1, 1, 15000), dispute(1, 1), resolve(1, 1)]);
    let client = engine.account(1).expect("client 1 has an account");
    assert_eq!(client.locked, false);
    assert_eq!(client.available, 15000);
    assert_eq!(client.held, 0);
    assert_eq!(outcomes, vec![Outcome::Applied, Outcome::Applied, Outcome::Applied]);
    assert_eq!(engine.transaction(1).unwrap().status, TransactionStatus::Processed);
}

#[test]
fn input_widrawal() {
    let (engine, outcomes) =
        run(vec![deposit(2, 1, 20000), withdrawal(2, 2, 10012), withdrawal(2, 3, 10011)]);
    let client = engine.account(2).expect("client 2 has an account");
    assert_eq!(client.locked, false);
    assert_eq!(client.available, 9988);
    assert_eq!(client.held, 0);
    assert_eq!(outcomes[2], Outcome::InsufficientFunds);
    assert_eq!(engine.transaction(3).unwrap().status, TransactionStatus::Processed);
}

#[test]
fn input_lock() {
    let (engine, outcomes) = run(vec![
        deposit(2, 1, 30000),
        dispute(2, 1),
        chargeback(2, 1),
        deposit(2, 2, 5000),
        withdrawal(2, 3, 1),
    ]);
    let client = engine.account(2).expect("client 2 has an account");
    assert_eq!(client.locked, true);
    assert_eq!(client.available, 0);
    assert_eq!(client.held, 0);
    assert_eq!(outcomes[3], Outcome::AccountLocked);
    assert_eq!(outcomes[4], Outcome::AccountLocked);
    assert_eq!(engine.transaction(1).unwrap().status, TransactionStatus::ChargedBacked);
    assert_eq!(engine.transaction(2).unwrap().status, TransactionStatus::Failed);
    assert_eq!(engine.transaction(3).unwrap().status, TransactionStatus::Failed);
}

#[test]
fn overdraft_leaves_balance_unchanged() {
    let (engine, outcomes) = run(vec![deposit(2, 1, 10000), withdrawal(2, 2, 10011)]);
    assert_eq!(outcomes, vec![Outcome::Applied, Outcome::InsufficientFunds]);
    let client = engine.account(2).unwrap();
    assert_eq!(client.available, 10000);
    assert_eq!(client.held, 0);
    assert_eq!(engine.transaction(2).unwrap().status, TransactionStatus::Processed);
}

#[test]
fn chargeback_keeps_available_and_clears_held() {
    let (engine, outcomes) =
        run(vec![deposit(2, 1, 10000), deposit(2, 2, 2500), dispute(2, 1), chargeback(2, 1)]);
    assert_eq!(outcomes[3], Outcome::Applied);
    let client = engine.account(2).unwrap();
    assert_eq!(client.available, 2500);
    assert_eq!(client.held, 0);
    assert!(client.locked);
}

#[test]
fn dispute_of_unknown_id_changes_nothing() {
    let (engine, outcomes) = run(vec![dispute(7, 99), resolve(7, 99), chargeback(7, 99)]);
    assert_eq!(
        outcomes,
        vec![Outcome::UnknownTransaction, Outcome::UnknownTransaction, Outcome::UnknownTransaction]
    );
    assert!(engine.account(7).is_none());
    assert!(engine.transaction(99).is_none());
    assert!(engine.snapshot().is_empty());
}

#[test]
fn balances_never_wrap_on_a_mixed_stream() {
    let (engine, _) = run(vec![
        deposit(1, 1, 5000),
        withdrawal(1, 2, 4000),
        dispute(1, 1),
        resolve(1, 1),
        chargeback(1, 1),
        withdrawal(1, 3, 2000),
        dispute(1, 2),
        dispute(1, 2),
    ]);
    let client = engine.account(1).unwrap();
    assert_eq!(client.available, 1000);
    assert_eq!(client.held, 0);
    assert!(!client.locked);
}

#[test]
fn dispute_larger_than_available_is_refused() {
    let (engine, outcomes) = run(vec![deposit(1, 1, 5000), withdrawal(1, 2, 4000), dispute(1, 1)]);
    assert_eq!(outcomes[2], Outcome::InsufficientAvailable);
    let client = engine.account(1).unwrap();
    assert_eq!(client.available, 1000);
    assert_eq!(client.held, 0);
    assert_eq!(engine.transaction(1).unwrap().status, TransactionStatus::Processed);
}

#[test]
fn dispute_by_another_client_is_refused() {
    let (engine, outcomes) = run(vec![deposit(1, 1, 5000), dispute(2, 1)]);
    assert_eq!(outcomes[1], Outcome::ClientMismatch);
    assert_eq!(engine.account(1).unwrap().available, 5000);
    assert_eq!(engine.account(2).unwrap(), Account::new_with_client(2));
}

#[test]
fn dispute_twice_is_refused() {
    let (_, outcomes) = run(vec![deposit(1, 1, 5000), dispute(1, 1), dispute(1, 1)]);
    assert_eq!(outcomes[2], Outcome::NotProcessed);
}

#[test]
fn resolve_and_chargeback_need_a_dispute() {
    let (engine, outcomes) = run(vec![deposit(1, 1, 5000), resolve(1, 1), chargeback(1, 1)]);
    assert_eq!(outcomes[1], Outcome::NotDisputed);
    assert_eq!(outcomes[2], Outcome::NotDisputed);
    assert!(!engine.account(1).unwrap().locked);
}

#[test]
fn locked_account_refuses_dispute_and_resolve() {
    let (_, outcomes) = run(vec![
        deposit(1, 1, 5000),
        deposit(1, 2, 3000),
        dispute(1, 1),
        dispute(1, 2),
        chargeback(1, 1),
        resolve(1, 2),
        dispute(1, 1),
        chargeback(1, 2),
    ]);
    assert_eq!(outcomes[5], Outcome::AccountLocked);
    assert_eq!(outcomes[6], Outcome::AccountLocked);
    assert_eq!(outcomes[7], Outcome::Applied);
}

#[test]
fn reused_id_replaces_the_stored_transaction() {
    let (engine, outcomes) = run(vec![
        deposit(1, 1, 3000),
        dispute(1, 1),
        deposit(1, 1, 1000),
        dispute(1, 1),
        resolve(1, 1),
    ]);
    assert_eq!(outcomes, vec![Outcome::Applied; 5]);
    let client = engine.account(1).unwrap();
    assert_eq!(client.available, 1000);
    assert_eq!(client.held, 3000);
    let stored = engine.transaction(1).unwrap();
    assert_eq!(stored.amount, Some(Amount::new(1000)));
    assert_eq!(stored.status, TransactionStatus::Processed);
}

#[test]
fn missing_amount_fails_the_event() {
    let (engine, outcomes) = run(vec![
        event(TransactionType::Deposit, 3, 1, None),
        event(TransactionType::Withdrawal, 3, 2, None),
    ]);
    assert_eq!(outcomes, vec![Outcome::MissingAmount, Outcome::MissingAmount]);
    assert_eq!(engine.transaction(1).unwrap().status, TransactionStatus::Failed);
    assert_eq!(engine.transaction(2).unwrap().status, TransactionStatus::Failed);
    assert_eq!(engine.account(3).unwrap().available, 0);
}

#[test]
fn deposit_past_the_largest_total_is_refused() {
    let (engine, outcomes) = run(vec![
        deposit(4, 1, u64::MAX - 10),
        dispute(4, 1),
        deposit(4, 2, 10),
        deposit(4, 3, 1),
    ]);
    assert_eq!(outcomes[2], Outcome::Applied);
    assert_eq!(outcomes[3], Outcome::BalanceOverflow);
    let client = engine.account(4).unwrap();
    assert_eq!(client.available, 10);
    assert_eq!(client.held, u64::MAX - 10);
    assert_eq!(client.total(), Some(u64::MAX));
    assert_eq!(engine.transaction(3).unwrap().status, TransactionStatus::Failed);
}

#[test]
fn snapshot_lists_each_client_once() {
    let (engine, _) = run(vec![
        deposit(3, 1, 100),
        deposit(1, 2, 200),
        deposit(3, 3, 300),
        withdrawal(2, 4, 50),
    ]);
    let snapshot = engine.snapshot();
    let clients: Vec<u16> = snapshot.iter().map(|a| a.client).collect();
    assert_eq!(clients, vec![3, 1, 2]);
    assert_eq!(snapshot[0].available, 400);
    assert_eq!(snapshot[1].available, 200);
    assert_eq!(snapshot[2].available, 0);
}

#[test]
fn account_total_adds_both_balances() {
    let a = Account { client: 1, available: 12345, held: 5, locked: false };
    assert_eq!(a.total(), Some(12350));
    let b = Account { client: 1, available: u64::MAX, held: 1, locked: false };
    assert_eq!(b.total(), None);
}

#[test]
fn new_account_is_empty_and_unlocked() {
    let a = Account::new_with_client(9);
    assert_eq!(a.client, 9);
    assert_eq!(a.available, 0);
    assert_eq!(a.held, 0);
    assert!(!a.locked);
}

#[test]
fn amount_keeps_its_integer() {
    let a = Amount::new(12345);
    assert_eq!(a.value(), 12345);
    assert_eq!(a.inner, 12345);
}
