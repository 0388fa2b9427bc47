use thunes::account::{
    create, delete, get_currency, list_accounts, list_accounts_with_details, read, update, Account,
    AddAccountOptions,
};
use thunes::datetime::DateTime;
use thunes::store::Snapshot;
use thunes::transaction::{ReadTransactionOptions, Transaction, TransactionWithId};
use thunes::{Error, RecordId};

fn setup() -> (Snapshot, Account) {
    let mut snapshot = Snapshot::new();
    let account = create(
        &mut snapshot,
        RecordId::new("account", "a1"),
        AddAccountOptions { currency: "EUR".to_string(), name: "My Account".to_string() },
    );
    (snapshot, account)
}

#[test]
fn test_accounts_creation() {
    let (mut snapshot, account1) = setup();
    let account2 = create(
        &mut snapshot,
        RecordId::new("account", "a2"),
        AddAccountOptions { currency: "$".to_string(), name: "My FREEDOM Account".to_string() },
    );

    assert_eq!(account1.data.currency, "EUR");
    assert_eq!(account1.data.name, "My Account");
    assert_eq!(account2.data.currency, "$");
    assert_eq!(account2.data.name, "My FREEDOM Account");
    assert_eq!(snapshot.accounts.len(), 2);
    assert_eq!(account1.id, RecordId::new("account", "a1"));
    assert_eq!(account1.data.filter.search, ReadTransactionOptions::default().search);
    assert_eq!(account1.data.filter.last_x_days, None);
}

#[test]
fn test_account_list() {
    let (snapshot, _account) = setup();

    let accounts = list_accounts(&snapshot);

    assert_eq!(accounts.len(), 1);
    assert_eq!(accounts[0].name, "My Account".to_string());
    assert_eq!(accounts[0].id, RecordId::new("account", "a1"));
}

#[test]
fn test_account_list_with_details() {
    let (snapshot, _account) = setup();

    let accounts = list_accounts_with_details(&snapshot);

    assert_eq!(accounts.len(), 1);
    assert_eq!(accounts[0].data.name, "My Account".to_string());
    assert_eq!(accounts[0].data.currency, "EUR".to_string());
}

#[test]
fn test_account_get() {
    let (snapshot, account) = setup();

    let account = read(&snapshot, &account.id).expect("failed to get account");

    assert_eq!(account.data.currency, "EUR");
    assert_eq!(account.data.name, "My Account");
    assert_eq!(get_currency(&snapshot, &account.id), Ok("EUR".to_string()));
    assert_eq!(get_currency(&snapshot, &RecordId::new("account", "zz")), Err(Error::RecordNotFound));
}

#[test]
fn test_account_update() {
    let (mut snapshot, mut account) = setup();

    account.data.currency = "BTC".to_string();
    update(&mut snapshot, account.clone());
    let account = read(&snapshot, &account.id).expect("failed to create account");

    assert_eq!(account.data.currency, "BTC");
    assert_eq!(account.data.name, "My Account");
}

#[test]
fn updating_an_account_that_is_not_stored_changes_nothing() {
    let (mut snapshot, _account) = setup();
    update(&mut snapshot, Account::new(RecordId::new("account", "zz"), "Ghost", "ZZZ"));
    assert_eq!(snapshot.accounts.len(), 1);
    assert_eq!(snapshot.accounts[0].data.name, "My Account");
}

#[test]
fn test_account_delete() {
    let (mut snapshot, account) = setup();

    delete(&mut snapshot, &account.id);
    assert!(read(&snapshot, &account.id).is_err());
    assert_eq!(read(&snapshot, &account.id).unwrap_err(), Error::RecordNotFound);
}

#[test]
fn deleting_an_account_takes_its_transactions_along() {
    let (mut snapshot, account) = setup();
    let date = DateTime { year: 2024, month: 1, day: 1, hour: 0, minute: 0, second: 0, nanosecond: 0 };
    for (key, owner) in [("t1", "a1"), ("t2", "a2"), ("t3", "a1")] {
        snapshot.transactions.push(TransactionWithId {
            inner: Transaction { date, amount: 1, description: String::new(), tags: vec![] },
            id: RecordId::new("transaction", key),
            account: RecordId::new("account", owner),
            category: RecordId::new("category", "other"),
        });
    }
    delete(&mut snapshot, &account.id);
    assert!(snapshot.accounts.is_empty());
    assert_eq!(snapshot.transactions.len(), 1);
    assert_eq!(snapshot.transactions[0].id.key, "t2");
}
