use thunes::account::{balance, Account, BalanceOptions};
use thunes::datetime::DateTime;
use thunes::store::Snapshot;
use thunes::transaction::tag::{tags_have_label, Tag};
use thunes::transaction::{
    read, resolve_options, sort_most_recent_first, ReadTransactionOptions, Transaction,
    TransactionFilter, TransactionWithId,
};
use thunes::{ChronoLocalResultError, Error, RecordId};

fn at(year: i32, month: u32, day: u32, hour: u32) -> DateTime {
    DateTime { year, month, day, hour, minute: 0, second: 0, nanosecond: 0 }
}

fn tag(label: &str) -> Tag {
    Tag { label: label.to_string(), color: None }
}

fn transaction(
    key: &str,
    amount: i64,
    date: DateTime,
    description: &str,
    category: &str,
    tags: Vec<Tag>,
) -> TransactionWithId {
    TransactionWithId {
        inner: Transaction { date, amount, description: description.to_string(), tags },
        id: RecordId::new("transaction", key),
        account: RecordId::new("account", "main"),
        category: RecordId::new("category", category),
    }
}

fn main_account() -> RecordId {
    RecordId::new("account", "main")
}

fn setup() -> Snapshot {
    let mut snapshot = Snapshot::new();
    snapshot.accounts.push(Account::new(main_account(), "My Account", "EUR"));
    snapshot.transactions = vec![
        transaction("t1", -25, at(2024, 3, 1, 1), "Morning COFFEE", "food", vec![tag("daily")]),
        transaction("t2", -200, at(2024, 3, 15, 1), "Train to Paris", "transport", vec![]),
        transaction("t3", 3000, at(2024, 2, 25, 1), "Salary", "income", vec![tag("job"), tag("monthly")]),
        transaction("t4", -30, at(2024, 3, 10, 1), "coffee beans", "food", vec![tag("monthly")]),
    ];
    let mut elsewhere = transaction("t5", -1, at(2024, 3, 5, 1), "coffee", "food", vec![]);
    elsewhere.account = RecordId::new("account", "savings");
    snapshot.transactions.push(elsewhere);
    snapshot
}

fn keys(list: &[TransactionWithId]) -> Vec<&str> {
    list.iter().map(|t| t.id.key.as_str()).collect()
}

fn now() -> DateTime {
    at(2024, 3, 20, 12)
}

#[test]
fn without_narrowing_every_transaction_of_the_account_comes_most_recent_first() {
    let snapshot = setup();
    let list = read(&snapshot, &main_account(), Some(ReadTransactionOptions::default()), now()).unwrap();
    assert_eq!(keys(&list), vec!["t2", "t4", "t1", "t3"]);
}

#[test]
fn a_search_ignores_case() {
    let snapshot = setup();
    let options = ReadTransactionOptions { search: Some("Coffee".to_string()), ..ReadTransactionOptions::default() };
    let list = read(&snapshot, &main_account(), Some(options), now()).unwrap();
    assert_eq!(keys(&list), vec!["t4", "t1"]);

    let options = ReadTransactionOptions { search: Some("PARIS".to_string()), ..ReadTransactionOptions::default() };
    assert_eq!(keys(&read(&snapshot, &main_account(), Some(options), now()).unwrap()), vec!["t2"]);

    let options = ReadTransactionOptions { search: Some("tea".to_string()), ..ReadTransactionOptions::default() };
    assert!(read(&snapshot, &main_account(), Some(options), now()).unwrap().is_empty());

    let options = ReadTransactionOptions { search: Some(String::new()), ..ReadTransactionOptions::default() };
    assert_eq!(read(&snapshot, &main_account(), Some(options), now()).unwrap().len(), 4);
}

#[test]
fn a_category_keeps_only_its_transactions() {
    let snapshot = setup();
    let options = ReadTransactionOptions {
        category: Some(RecordId::new("category", "food")),
        ..ReadTransactionOptions::default()
    };
    assert_eq!(keys(&read(&snapshot, &main_account(), Some(options), now()).unwrap()), vec!["t4", "t1"]);
}

#[test]
fn the_two_dates_are_both_included() {
    let snapshot = setup();
    let options = ReadTransactionOptions {
        start: Some(at(2024, 3, 1, 1)),
        end: Some(at(2024, 3, 10, 1)),
        ..ReadTransactionOptions::default()
    };
    assert_eq!(keys(&read(&snapshot, &main_account(), Some(options), now()).unwrap()), vec!["t4", "t1"]);
    let options = ReadTransactionOptions { end: Some(at(2024, 3, 1, 0)), ..ReadTransactionOptions::default() };
    assert_eq!(keys(&read(&snapshot, &main_account(), Some(options), now()).unwrap()), vec!["t3"]);
}

#[test]
fn the_last_days_take_the_place_of_the_two_dates() {
    let snapshot = setup();
    let options = ReadTransactionOptions {
        start: Some(at(2020, 1, 1, 0)),
        end: Some(at(2020, 12, 31, 0)),
        last_x_days: Some(10),
        ..ReadTransactionOptions::default()
    };
    // From 10 March 12:00 to 20 March 12:00.
    assert_eq!(keys(&read(&snapshot, &main_account(), Some(options), now()).unwrap()), vec!["t2"]);

    let options = ReadTransactionOptions { last_x_days: Some(20), ..ReadTransactionOptions::default() };
    // From 29 February 12:00 on: 2024 is a leap year.
    let filter = TransactionFilter::compile(main_account(), options.clone(), now()).unwrap();
    assert_eq!(filter.start, Some(at(2024, 2, 29, 12)));
    assert_eq!(filter.end, Some(now()));
    assert_eq!(keys(&read(&snapshot, &main_account(), Some(options), now()).unwrap()), vec!["t2", "t4", "t1"]);

    let options = ReadTransactionOptions { last_x_days: Some(0), ..ReadTransactionOptions::default() };
    let filter = TransactionFilter::compile(main_account(), options, now()).unwrap();
    assert_eq!(filter.start, Some(now()));
}

#[test]
fn the_last_days_need_an_instant_to_count_from() {
    let options = ReadTransactionOptions { last_x_days: Some(1), ..ReadTransactionOptions::default() };
    let r = TransactionFilter::compile(main_account(), options.clone(), at(2024, 2, 30, 0));
    assert_eq!(r.unwrap_err(), Error::Time(ChronoLocalResultError::Missing));
    let r = TransactionFilter::compile(main_account(), options, at(thunes::datetime::MIN_YEAR, 1, 1, 0));
    assert_eq!(r.unwrap_err(), Error::Time(ChronoLocalResultError::Missing));
    // Without a number of days the instant is not looked at.
    let r = TransactionFilter::compile(main_account(), ReadTransactionOptions::default(), at(2024, 2, 30, 0));
    assert!(r.is_ok());
}

#[test]
fn a_filter_is_made_from_the_instant_handed_to_it() {
    let options = ReadTransactionOptions {
        search: Some("x".to_string()),
        start: Some(at(2020, 1, 1, 0)),
        last_x_days: Some(3),
        ..ReadTransactionOptions::default()
    };
    let filter =
        TransactionFilter::from_options(main_account(), options.clone(), now(), Some(at(2024, 3, 17, 12))).unwrap();
    assert_eq!(filter.start, Some(at(2024, 3, 17, 12)));
    assert_eq!(filter.end, Some(now()));
    assert_eq!(filter.search, Some("x".to_string()));
    assert_eq!(filter.account, main_account());
    let r = TransactionFilter::from_options(main_account(), options, now(), None);
    assert_eq!(r.unwrap_err(), Error::Time(ChronoLocalResultError::Missing));
    let plain = ReadTransactionOptions { start: Some(at(2020, 1, 1, 0)), ..ReadTransactionOptions::default() };
    let filter = TransactionFilter::from_options(main_account(), plain, now(), Some(at(2024, 3, 17, 12))).unwrap();
    assert_eq!(filter.start, Some(at(2020, 1, 1, 0)));
    assert_eq!(filter.end, None);
}

#[test]
fn without_options_the_stored_filter_of_the_account_is_used() {
    let mut snapshot = setup();
    snapshot.accounts[0].data.filter =
        ReadTransactionOptions { search: Some("salary".to_string()), ..ReadTransactionOptions::default() };
    assert_eq!(keys(&read(&snapshot, &main_account(), None, now()).unwrap()), vec!["t3"]);
    // Options that are supplied win over the stored ones.
    let list = read(&snapshot, &main_account(), Some(ReadTransactionOptions::default()), now()).unwrap();
    assert_eq!(list.len(), 4);
}

#[test]
fn without_options_and_without_a_stored_filter_nothing_is_found() {
    let snapshot = setup();
    let r = read(&snapshot, &RecordId::new("account", "unknown"), None, now());
    assert_eq!(r.unwrap_err(), Error::RecordNotFound);
    assert_eq!(resolve_options(None, None).unwrap_err(), Error::RecordNotFound);
    assert!(resolve_options(Some(ReadTransactionOptions::default()), None).is_ok());
    let stored = ReadTransactionOptions { last_x_days: Some(3), ..ReadTransactionOptions::default() };
    assert_eq!(resolve_options(None, Some(stored)).unwrap().last_x_days, Some(3));
}

#[test]
fn sorting_keeps_every_transaction() {
    let list = vec![
        transaction("a", 1, at(2024, 1, 1, 0), "", "c", vec![]),
        transaction("b", 2, at(2024, 1, 3, 0), "", "c", vec![]),
        transaction("c", 3, at(2024, 1, 2, 0), "", "c", vec![]),
        transaction("d", 4, at(2024, 1, 3, 0), "", "c", vec![]),
        transaction("e", 5, at(2023, 12, 31, 23), "", "c", vec![]),
    ];
    let sorted = sort_most_recent_first(&list);
    assert_eq!(sorted.len(), 5);
    for pair in sorted.windows(2) {
        assert!(pair[1].inner.date.is_at_or_before(&pair[0].inner.date));
    }
    let mut seen: Vec<&str> = keys(&sorted);
    seen.sort();
    assert_eq!(seen, vec!["a", "b", "c", "d", "e"]);
    // Two transactions of one date keep the order in which they were given.
    assert_eq!(keys(&sorted), vec!["b", "d", "c", "a", "e"]);
    assert!(sort_most_recent_first(&vec![]).is_empty());
}

#[test]
fn a_balance_sums_the_amounts_of_the_account() {
    let snapshot = setup();
    assert_eq!(balance(&snapshot, &main_account(), &BalanceOptions::default()), Ok(-25 - 200 + 3000 - 30));
    assert_eq!(balance(&snapshot, &RecordId::new("account", "savings"), &BalanceOptions::default()), Ok(-1));
}

#[test]
fn a_balance_without_matching_transactions_is_zero() {
    let snapshot = setup();
    assert_eq!(balance(&snapshot, &RecordId::new("account", "unknown"), &BalanceOptions::default()), Ok(0));
    let options = BalanceOptions { tag: Some("holidays".to_string()), ..BalanceOptions::default() };
    assert_eq!(balance(&snapshot, &main_account(), &options), Ok(0));
    assert_eq!(balance(&Snapshot::new(), &main_account(), &BalanceOptions::default()), Ok(0));
}

#[test]
fn the_bounds_of_a_balance_are_both_left_out() {
    let snapshot = setup();
    let options = BalanceOptions { period_start: Some(at(2024, 3, 1, 1)), ..BalanceOptions::default() };
    assert_eq!(balance(&snapshot, &main_account(), &options), Ok(-200 - 30));
    let options = BalanceOptions { period_end: Some(at(2024, 3, 10, 1)), ..BalanceOptions::default() };
    assert_eq!(balance(&snapshot, &main_account(), &options), Ok(-25 + 3000));
    let options = BalanceOptions {
        period_start: Some(at(2024, 2, 25, 1)),
        period_end: Some(at(2024, 3, 15, 1)),
        tag: None,
    };
    assert_eq!(balance(&snapshot, &main_account(), &options), Ok(-25 - 30));
}

#[test]
fn a_balance_can_be_narrowed_to_a_tag() {
    let snapshot = setup();
    let options = BalanceOptions { tag: Some("monthly".to_string()), ..BalanceOptions::default() };
    assert_eq!(balance(&snapshot, &main_account(), &options), Ok(3000 - 30));
    let options = BalanceOptions {
        tag: Some("monthly".to_string()),
        period_start: Some(at(2024, 3, 1, 0)),
        period_end: None,
    };
    assert_eq!(balance(&snapshot, &main_account(), &options), Ok(-30));
    let options = BalanceOptions { tag: Some("Monthly".to_string()), ..BalanceOptions::default() };
    assert_eq!(balance(&snapshot, &main_account(), &options), Ok(0));
}

#[test]
fn a_balance_that_does_not_fit_is_a_failure() {
    let mut snapshot = setup();
    snapshot.transactions.push(transaction("big", i64::MAX, at(2024, 3, 1, 0), "", "c", vec![]));
    assert_eq!(balance(&snapshot, &main_account(), &BalanceOptions::default()), Err(Error::AmountOutOfRange));
    snapshot.transactions.push(transaction("back", -i64::MAX, at(2024, 3, 1, 0), "", "c", vec![]));
    assert_eq!(balance(&snapshot, &main_account(), &BalanceOptions::default()), Ok(2745));
}

#[test]
fn tags_are_equal_by_their_label() {
    let red = Tag { label: "job".to_string(), color: Some("red".to_string()) };
    let blue = Tag { label: "job".to_string(), color: Some("blue".to_string()) };
    assert!(red == blue);
    assert!(red != tag("Job"));
    assert!(tags_have_label(&vec![tag("a"), red.clone()], &"job".to_string()));
    assert!(!tags_have_label(&vec![tag("a"), red], &"b".to_string()));
    assert!(!tags_have_label(&vec![], &"b".to_string()));
}
