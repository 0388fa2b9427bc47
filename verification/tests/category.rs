use thunes::account::Account;
use thunes::budget::category::{read, ReadCategoryOptions};
use thunes::budget::view::View;
use thunes::budget::{Budget, ExpensesPeriod};
use thunes::datetime::DateTime;
use thunes::store::Snapshot;
use thunes::transaction::{Transaction, TransactionWithId};
use thunes::{Error, RecordId};

fn at(year: i32, month: u32, day: u32, hour: u32) -> DateTime {
    DateTime { year, month, day, hour, minute: 0, second: 0, nanosecond: 0 }
}

fn transaction(key: &str, amount: i64, date: DateTime, category: &str, account: &str) -> TransactionWithId {
    TransactionWithId {
        inner: Transaction { date, amount, description: "Going to work".to_string(), tags: vec![] },
        id: RecordId::new("transaction", key),
        account: RecordId::new("account", account),
        category: RecordId::new("category", category),
    }
}

fn setup() -> Snapshot {
    let account = Account::new(RecordId::new("account", "main"), "My Account", "EUR");
    let mut snapshot = Snapshot::new();
    snapshot.budgets.push(Budget {
        id: RecordId::new("budget", "mine"),
        name: "My budget".to_string(),
        income: 2000,
        currency: "EUR".to_string(),
        accounts: vec![account.clone()],
        view: View { expenses: false, allocations: false },
    });
    snapshot.accounts.push(account);
    snapshot.transactions = vec![
        transaction("t1", 25, at(2024, 3, 1, 1), "transport", "main"),
        transaction("t2", 200, at(2024, 3, 15, 1), "transport", "main"),
        transaction("t3", 30, at(2024, 2, 25, 1), "transport", "main"),
        transaction("t4", 30, at(2024, 3, 1, 1), "food", "main"),
        transaction("t5", 99, at(2024, 3, 2, 1), "transport", "savings"),
    ];
    snapshot
}

#[test]
fn test_get_transactions_by_category() {
    let snapshot = setup();
    let category_transport = RecordId::new("category", "transport");

    let result = read(
        &snapshot,
        &RecordId::new("budget", "mine"),
        ReadCategoryOptions {
            period: ExpensesPeriod::Monthly,
            category: category_transport.clone(),
            start_date: at(2024, 3, 1, 0),
        },
    )
    .unwrap();

    assert_eq!(result.category, category_transport);
    assert_eq!(result.transactions.len(), 2);
}

#[test]
fn the_transactions_of_a_category_are_exactly_those_that_match() {
    let snapshot = setup();
    let result = read(
        &snapshot,
        &RecordId::new("budget", "mine"),
        ReadCategoryOptions {
            period: ExpensesPeriod::Monthly,
            category: RecordId::new("category", "transport"),
            start_date: at(2024, 3, 1, 12),
        },
    )
    .unwrap();
    let keys: Vec<&str> = result.transactions.iter().map(|t| t.id.key.as_str()).collect();
    assert_eq!(keys, vec!["t1", "t2"]);
    assert_eq!(result.period_start, "2024-03-01T00:00:00+00:00");
    assert_eq!(result.period_end, "2024-04-01T00:00:00+00:00");

    let food = read(
        &snapshot,
        &RecordId::new("budget", "mine"),
        ReadCategoryOptions {
            period: ExpensesPeriod::Yearly,
            category: RecordId::new("category", "food"),
            start_date: at(2024, 1, 1, 0),
        },
    )
    .unwrap();
    assert_eq!(food.transactions.len(), 1);
    assert_eq!(food.transactions[0].id.key, "t4");

    let none = read(
        &snapshot,
        &RecordId::new("budget", "mine"),
        ReadCategoryOptions {
            period: ExpensesPeriod::Monthly,
            category: RecordId::new("category", "health"),
            start_date: at(2024, 3, 1, 0),
        },
    )
    .unwrap();
    assert!(none.transactions.is_empty());
}

#[test]
fn the_transactions_of_a_category_include_the_end_of_the_window() {
    let mut snapshot = setup();
    snapshot.transactions.push(transaction("t6", 1, at(2024, 4, 1, 0), "transport", "main"));
    snapshot.transactions.push(transaction("t7", 1, at(2024, 4, 1, 1), "transport", "main"));
    let result = read(
        &snapshot,
        &RecordId::new("budget", "mine"),
        ReadCategoryOptions {
            period: ExpensesPeriod::Monthly,
            category: RecordId::new("category", "transport"),
            start_date: at(2024, 3, 1, 0),
        },
    )
    .unwrap();
    let keys: Vec<&str> = result.transactions.iter().map(|t| t.id.key.as_str()).collect();
    assert_eq!(keys, vec!["t1", "t2", "t6"]);
}

#[test]
fn the_transactions_of_a_category_need_the_budget_and_the_period() {
    let snapshot = setup();
    let missing = read(
        &snapshot,
        &RecordId::new("budget", "other"),
        ReadCategoryOptions {
            period: ExpensesPeriod::Monthly,
            category: RecordId::new("category", "transport"),
            start_date: at(2024, 3, 1, 0),
        },
    );
    assert_eq!(missing.unwrap_err(), Error::RecordNotFound);
    let no_day = read(
        &snapshot,
        &RecordId::new("budget", "other"),
        ReadCategoryOptions {
            period: ExpensesPeriod::Monthly,
            category: RecordId::new("category", "transport"),
            start_date: at(2024, 2, 30, 0),
        },
    );
    assert_eq!(no_day.unwrap_err(), Error::Time(thunes::ChronoLocalResultError::Missing));
}
