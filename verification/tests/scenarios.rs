use std::collections::HashMap;

use payment_engine::amount::{format_amount, parse_amount};
use payment_engine::client::Client;
use payment_engine::engine::Engine;
use payment_engine::error::Error;
use payment_engine::transaction::{Kind, Transaction};

fn deposit(client: u16, id: u32, amount: &str) -> Transaction {
    Transaction { kind: Kind::Deposit, client, id, amount: parse_amount(amount.as_bytes()) }
}

fn withdrawal(client: u16, id: u32, amount: &str) -> Transaction {
    Transaction { kind: Kind::Withdrawal, client, id, amount: parse_amount(amount.as_bytes()) }
}

fn dispute(client: u16, id: u32) -> Transaction {
    Transaction { kind: Kind::Dispute, client, id, amount: None }
}

fn resolve(client: u16, id: u32) -> Transaction {
    Transaction { kind: Kind::Resolve, client, id, amount: None }
}

fn chargeback(client: u16, id: u32) -> Transaction {
    Transaction { kind: Kind::Chargeback, client, id, amount: None }
}

fn row(clients: &HashMap<u16, Client>, id: u16) -> (String, String, String, bool) {
    let client = clients.get(&id).unwrap();
    assert_eq!(client.id(), id);
    (
        String::from_utf8(format_amount(client.available())).unwrap(),
        String::from_utf8(format_amount(client.held())).unwrap(),
        String::from_utf8(format_amount(client.total())).unwrap(),
        client.locked(),
    )
}

fn expected(available: &str, held: &str, total: &str, locked: bool) -> (String, String, String, bool) {
    (available.to_string(), held.to_string(), total.to_string(), locked)
}

#[test]
fn single_deposit_is_credited() {
    let clients = Engine::new().process(vec![deposit(1, 1, "10.0")]).unwrap();
    assert_eq!(clients.len(), 1);
    assert_eq!(row(&clients, 1), expected("10.0000", "0.0000", "10.0000", false));
    let account = clients.get(&1).unwrap();
    assert_eq!(account.available(), 100_000);
    assert_eq!(account.held(), 0);
    assert_eq!(account.total(), 100_000);
    assert!(!account.locked());
}

#[test]
fn withdrawal_after_deposit_leaves_the_difference() {
    let clients =
        Engine::new().process(vec![deposit(1, 1, "10.0"), withdrawal(1, 2, "5.0")]).unwrap();
    assert_eq!(row(&clients, 1), expected("5.0000", "0.0000", "5.0000", false));
    let account = clients.get(&1).unwrap();
    assert_eq!(account.available(), 50_000);
    assert_eq!(account.held(), 0);
    assert_eq!(account.total(), 50_000);
}

#[test]
fn dispute_holds_and_resolve_releases() {
    let disputed = Engine::new().process(vec![deposit(1, 1, "10.0"), dispute(1, 1)]).unwrap();
    assert_eq!(row(&disputed, 1), expected("0.0000", "10.0000", "10.0000", false));

    let mut engine = Engine::new();
    assert_eq!(engine.process_transaction(&deposit(1, 1, "10.0")), Ok(()));
    assert_eq!(engine.process_transaction(&dispute(1, 1)), Ok(()));
    assert_eq!(engine.process_transaction(&resolve(1, 1)), Ok(()));
    let resolved = engine.into_clients();
    assert_eq!(row(&resolved, 1), expected("10.0000", "0.0000", "10.0000", false));
}

#[test]
fn chargeback_empties_and_locks() {
    let mut engine = Engine::new();
    assert_eq!(engine.process_transaction(&deposit(1, 1, "10.0")), Ok(()));
    assert_eq!(engine.process_transaction(&dispute(1, 1)), Ok(()));
    assert_eq!(engine.process_transaction(&chargeback(1, 1)), Ok(()));
    assert_eq!(
        engine.process_transaction(&deposit(1, 3, "5.0")),
        Err(Error::AccountLocked { client: 1 })
    );
    let clients = engine.into_clients();
    assert_eq!(row(&clients, 1), expected("0.0000", "0.0000", "0.0000", true));

    let clients = Engine::new()
        .process(vec![deposit(1, 1, "10.0"), dispute(1, 1), chargeback(1, 1), deposit(1, 3, "5.0")])
        .unwrap();
    assert_eq!(row(&clients, 1), expected("0.0000", "0.0000", "0.0000", true));
}

#[test]
fn withdrawal_without_funds_is_refused() {
    let mut engine = Engine::new();
    assert_eq!(
        engine.process_transaction(&withdrawal(1, 1, "5.0")),
        Err(Error::InsufficientAvailableFunds { client: 1 })
    );
    let clients = engine.into_clients();
    assert_eq!(row(&clients, 1), expected("0.0000", "0.0000", "0.0000", false));

    let clients = Engine::new().process(vec![withdrawal(1, 1, "5.0")]).unwrap();
    assert_eq!(row(&clients, 1), expected("0.0000", "0.0000", "0.0000", false));
}

#[test]
fn duplicate_identifier_ends_the_run() {
    let result = Engine::new().process(vec![deposit(1, 1, "10.0"), deposit(1, 1, "5.0")]);
    let error = result.err().unwrap();
    assert_eq!(error, Error::DuplicateTransactionId { id: 1, client: 1, kind: Kind::Deposit });
    assert!(error.is_fatal());
}
