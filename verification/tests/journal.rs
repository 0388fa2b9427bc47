use thunes::journal::{
    balance_between, chart_points, chart_range, list_between, parse_tags, script_balance, totals_by_currency, Account,
    ChartPoint, CurrencyTotal, Date, Error, Item, ScriptAccountBalance, ScriptOutcome, Transaction,
};
use thunes::ledger::amount::{format_amount, parse_amount};
use thunes::journal::{date_eq, date_inf, date_neq, date_sup};
use thunes::operations::{format_date, new_date, Operation};
use thunes::text::{comes_before, split, without_repeats};

fn day(year: i32, month: u8, day: u8) -> Date {
    Date { year, month, day }
}

fn item(date: Date, amount: i64) -> Item {
    Item { date, amount, description: "something".to_string(), tags: vec!["a".to_string()] }
}

fn journal() -> Account {
    let mut account = Account::open("bank", "EUR");
    account
        .push_transaction(Transaction::Income(item(day(2024, 1, 5), 100)))
        .push_transaction(Transaction::Spending(item(day(2024, 1, 5), 30)))
        .push_transaction(Transaction::Spending(item(day(2024, 1, 20), 50)))
        .push_transaction(Transaction::Income(item(day(2024, 2, 1), 7)));
    account
}

fn dates(list: &[Transaction]) -> Vec<Date> {
    list.iter().map(|t| *t.date()).collect()
}

fn chars(text: &str) -> Vec<char> {
    text.chars().collect()
}

#[test]
fn a_transaction_counts_for_or_against_the_account() {
    let income = Transaction::Income(item(day(2024, 1, 5), 100));
    let spending = Transaction::Spending(item(day(2024, 1, 6), 100));
    assert_eq!(income.amount(), 100);
    assert_eq!(spending.amount(), -100);
    assert_eq!(Transaction::Spending(item(day(2024, 1, 6), i64::MIN)).amount(), 1i128 << 63);
    assert_eq!(*income.date(), day(2024, 1, 5));
    assert_eq!(spending.description(), "something");
    assert_eq!(spending.tags(), &vec!["a".to_string()]);
}

#[test]
fn days_are_ordered_by_year_month_and_day() {
    assert!(day(2023, 12, 31).is_before(&day(2024, 1, 1)));
    assert!(day(2024, 1, 31).is_before(&day(2024, 2, 1)));
    assert!(day(2024, 2, 1).is_before(&day(2024, 2, 2)));
    assert!(!day(2024, 2, 2).is_before(&day(2024, 2, 2)));
    assert!(day(2024, 2, 2).is_at_or_before(&day(2024, 2, 2)));
    assert!(!day(2024, 2, 3).is_at_or_before(&day(2024, 2, 2)));
}

#[test]
fn a_journal_keeps_its_name_and_its_transactions() {
    let account = journal();
    assert_eq!(account.name(), "bank");
    assert_eq!(account.currency(), "EUR");
    assert_eq!(account.data.transactions.len(), 4);
}

#[test]
fn the_transactions_between_two_days_include_both_days() {
    let account = journal();
    let all = account.transactions_between(None, None).unwrap();
    assert_eq!(all.len(), 4);
    let some = account.transactions_between(Some(&day(2024, 1, 5)), Some(&day(2024, 1, 20))).unwrap();
    assert_eq!(dates(some), vec![day(2024, 1, 5), day(2024, 1, 5), day(2024, 1, 20)]);
    let late = account.transactions_between(Some(&day(2024, 1, 6)), None).unwrap();
    assert_eq!(dates(late), vec![day(2024, 1, 20), day(2024, 2, 1)]);
    let early = account.transactions_between(None, Some(&day(2024, 1, 19))).unwrap();
    assert_eq!(early.len(), 2);
    let one = account.transactions_between(Some(&day(2024, 2, 1)), Some(&day(2024, 2, 1))).unwrap();
    assert_eq!(dates(one), vec![day(2024, 2, 1)]);
}

#[test]
fn a_range_without_transactions_is_empty_only_at_the_beginning() {
    let account = journal();
    // Before the first transaction: the range starts and ends at the beginning.
    let none = account.transactions_between(Some(&day(2023, 1, 1)), Some(&day(2023, 12, 31))).unwrap();
    assert!(none.is_empty());
    // Between two transactions, or turned round: the start is not before the end.
    let gap = account.transactions_between(Some(&day(2024, 1, 6)), Some(&day(2024, 1, 19)));
    assert_eq!(gap.unwrap_err(), Error::InvalidDateRange);
    let turned = account.transactions_between(Some(&day(2024, 2, 1)), Some(&day(2024, 1, 5)));
    assert_eq!(turned.unwrap_err(), Error::InvalidDateRange);
    let after = account.transactions_between(Some(&day(2025, 1, 1)), None);
    assert_eq!(after.unwrap_err(), Error::InvalidDateRange);
    let empty = Account::open("cash", "EUR");
    assert!(empty.transactions_between(Some(&day(2024, 1, 1)), Some(&day(2024, 1, 2))).unwrap().is_empty());
    assert!(empty.transactions_between(None, None).unwrap().is_empty());
}

#[test]
fn the_balance_of_a_range_is_what_its_transactions_add_up_to() {
    let account = journal();
    assert_eq!(list_between(account.transactions_between(None, None).unwrap()), 100 - 30 - 50 + 7);
    assert_eq!(list_between(account.transactions_between(None, Some(&day(2024, 1, 5))).unwrap()), 70);
    assert_eq!(list_between(&[]), 0);
}

#[test]
fn the_balance_between_two_days_is_what_the_transactions_of_the_range_add_up_to() {
    let account = journal();
    assert_eq!(balance_between(&account, None, None), Ok(100 - 30 - 50 + 7));
    assert_eq!(balance_between(&account, Some(&day(2024, 1, 5)), Some(&day(2024, 1, 20))), Ok(100 - 30 - 50));
    assert_eq!(balance_between(&account, Some(&day(2024, 1, 6)), None), Ok(-50 + 7));
    assert_eq!(balance_between(&account, None, Some(&day(2024, 1, 5))), Ok(70));
    // Before the first transaction the range is empty and the balance zero.
    assert_eq!(balance_between(&account, Some(&day(2023, 1, 1)), Some(&day(2023, 12, 31))), Ok(0));
    assert_eq!(balance_between(&Account::open("cash", "EUR"), None, None), Ok(0));
    // A range that starts at or after its end elsewhere is a failure.
    assert_eq!(
        balance_between(&account, Some(&day(2024, 1, 6)), Some(&day(2024, 1, 19))),
        Err(Error::InvalidDateRange)
    );
    assert_eq!(
        balance_between(&account, Some(&day(2024, 2, 1)), Some(&day(2024, 1, 5))),
        Err(Error::InvalidDateRange)
    );
    assert_eq!(balance_between(&account, Some(&day(2025, 1, 1)), None), Err(Error::InvalidDateRange));
    let mut big = Account::open("big", "EUR");
    big.push_transaction(Transaction::Income(item(day(2024, 1, 1), i64::MAX)))
        .push_transaction(Transaction::Income(item(day(2024, 1, 2), i64::MAX)));
    assert_eq!(balance_between(&big, None, None), Ok(2 * (i64::MAX as i128)));
}

#[test]
fn tags_are_named_once_each() {
    assert_eq!(parse_tags("house,family,expenses"), vec!["house", "family", "expenses"]);
    assert_eq!(parse_tags("a,b,a,c,b"), vec!["a", "b", "c"]);
    assert_eq!(parse_tags(""), vec![""]);
    assert_eq!(parse_tags("a,,b,"), vec!["a", "", "b"]);
    assert_eq!(split("a,,b,", ','), vec!["a", "", "b", ""]);
    assert_eq!(split("abc", ','), vec!["abc"]);
    assert_eq!(split(",", ','), vec!["", ""]);
    assert_eq!(split("é,ü", ','), vec!["é", "ü"]);
    assert!(without_repeats(&vec![]).is_empty());
}

#[test]
fn a_script_gives_a_balance_with_or_without_its_currency() {
    let named = ScriptOutcome::Named(ScriptAccountBalance { amount: 5, currency: "BTC".to_string() });
    let total = script_balance("EUR", named).unwrap();
    assert_eq!((total.currency.as_str(), total.total), ("BTC", 5));
    let total = script_balance("EUR", ScriptOutcome::Plain(-7)).unwrap();
    assert_eq!((total.currency.as_str(), total.total), ("EUR", -7));
    assert_eq!(script_balance("EUR", ScriptOutcome::Other).unwrap_err(), Error::ScriptEvaluation);
}

fn total(currency: &str, total: i64) -> CurrencyTotal {
    CurrencyTotal { currency: currency.to_string(), total }
}

#[test]
fn totals_are_taken_by_currency_in_the_order_of_the_dictionary() {
    let balances = vec![total("USD", 10), total("EUR", 5), total("BTC", 1), total("EUR", -20), total("USD", 1)];
    let totals = totals_by_currency(&balances).unwrap();
    let pairs: Vec<(&str, i64)> = totals.iter().map(|t| (t.currency.as_str(), t.total)).collect();
    assert_eq!(pairs, vec![("BTC", 1), ("EUR", -15), ("USD", 11)]);
    assert!(totals_by_currency(&vec![]).unwrap().is_empty());
    let cased = vec![total("eur", 1), total("EUR", 2), total("", 3), total("EU", 4)];
    let totals = totals_by_currency(&cased).unwrap();
    let names: Vec<&str> = totals.iter().map(|t| t.currency.as_str()).collect();
    assert_eq!(names, vec!["", "EU", "EUR", "eur"]);
}

#[test]
fn a_currency_total_that_does_not_fit_is_a_failure() {
    let balances = vec![total("EUR", i64::MAX), total("USD", 1), total("EUR", 1)];
    assert_eq!(totals_by_currency(&balances).unwrap_err(), Error::AmountOutOfRange);
    let balances = vec![total("EUR", i64::MAX), total("EUR", 1), total("EUR", -1)];
    assert_eq!(totals_by_currency(&balances).unwrap()[0].total, i64::MAX);
}

#[test]
fn texts_are_ordered_as_in_a_dictionary() {
    assert!(comes_before(&chars("BTC"), &chars("EUR")));
    assert!(comes_before(&chars("EU"), &chars("EUR")));
    assert!(comes_before(&chars(""), &chars("a")));
    assert!(comes_before(&chars("Z"), &chars("a")));
    assert!(!comes_before(&chars("EUR"), &chars("EUR")));
    assert!(!comes_before(&chars("EUR"), &chars("EU")));
    assert!(!comes_before(&chars(""), &chars("")));
    assert_eq!(comes_before(&chars("é"), &chars("z")), "é" < "z");
}

#[test]
fn a_chart_spans_the_amounts_and_zero() {
    let account = journal();
    assert_eq!(chart_range(&account.data.transactions), (-50, 100));
    assert_eq!(chart_range(&[]), (0, 0));
    assert_eq!(chart_range(&[Transaction::Income(item(day(2024, 1, 1), 5))]), (0, 5));
    assert_eq!(chart_range(&[Transaction::Spending(item(day(2024, 1, 1), 5))]), (-5, 0));
}

#[test]
fn a_chart_has_one_point_for_each_run_of_one_day() {
    let mut account = journal();
    account.push_transaction(Transaction::Income(item(day(2024, 1, 5), 1)));
    let points = chart_points(&account.data.transactions);
    assert_eq!(
        points,
        vec![
            ChartPoint { date: day(2024, 1, 5), amount: 70 },
            ChartPoint { date: day(2024, 1, 20), amount: -50 },
            ChartPoint { date: day(2024, 2, 1), amount: 7 },
            ChartPoint { date: day(2024, 1, 5), amount: 1 },
        ]
    );
    assert!(chart_points(&[]).is_empty());
}

#[test]
fn amounts_are_written_with_two_decimals() {
    assert_eq!(format_amount(0), "0.00");
    assert_eq!(format_amount(5), "0.05");
    assert_eq!(format_amount(-5), "-0.05");
    assert_eq!(format_amount(1250), "12.50");
    assert_eq!(format_amount(-123456), "-1234.56");
    assert_eq!(format_amount(i64::MAX), "92233720368547758.07");
    assert_eq!(format_amount(i64::MIN), "-92233720368547758.08");
    for amount in [0, 1, -1, 9, 10, 99, 100, 101, -100, 123456789, i64::MAX, i64::MIN] {
        assert_eq!(parse_amount(&format_amount(amount)), Some(amount));
    }
}

#[test]
fn an_operation_is_read_from_its_line() {
    let operation = Operation::from_str("2023-01-15,i,12.5,Salary,job:monthly:job").unwrap();
    assert_eq!(operation.as_str(), "i");
    assert_eq!(operation.date(), day(2023, 1, 15));
    assert_eq!(operation.ammount(), 1250);
    assert_eq!(operation.item().description, "Salary");
    assert_eq!(operation.item().tags, vec!["job", "monthly"]);
    let operation = Operation::from_str("2024-02-29,s,3,Bread,,ignored").unwrap();
    assert_eq!(operation.as_str(), "s");
    assert_eq!(operation.ammount(), -300);
    assert_eq!(operation.item().tags, vec![""]);
}

#[test]
fn an_operation_is_written_to_its_line() {
    let line = "2023-01-15,i,12.50,Salary,job:monthly\n";
    let operation = Operation::from_str("2023-01-15,i,12.5,Salary,job:monthly").unwrap();
    assert_eq!(operation.to_text(), Some(line.to_string()));
    assert_eq!(operation.line_with("yesterday"), "yesterday,i,12.50,Salary,job:monthly\n");
    let again = Operation::from_str(line.trim_end()).unwrap();
    assert_eq!(again.to_text(), Some(line.to_string()));
    let none = Operation::Spending(thunes::operations::Item {
        date: day(2023, 2, 30),
        ammount: 1,
        description: String::new(),
        tags: vec![],
    });
    assert_eq!(none.to_text(), None);
    assert_eq!(none.line_with("d"), "d,s,0.01,,\n");
}

#[test]
fn a_line_that_is_no_operation_says_why() {
    let not_found = |field: &str| thunes::operations::Error::ParsingFieldNotFound(field.to_string());
    let failed = |field: &str| thunes::operations::Error::ParsingFieldFailed { field: field.to_string() };
    assert_eq!(Operation::from_str("").unwrap_err(), failed("date"));
    assert_eq!(Operation::from_str("15/01/2023,i,1,x,t").unwrap_err(), failed("date"));
    assert_eq!(Operation::from_str("2023-02-30,i,1,x,t").unwrap_err(), failed("date"));
    assert_eq!(Operation::from_str("2023-01-15").unwrap_err(), not_found("operation"));
    assert_eq!(Operation::from_str("2023-01-15,i").unwrap_err(), not_found("ammount"));
    assert_eq!(Operation::from_str("2023-01-15,i,much").unwrap_err(), failed("ammount"));
    assert_eq!(Operation::from_str("2023-01-15,i,1").unwrap_err(), not_found("description"));
    assert_eq!(Operation::from_str("2023-01-15,i,1,x").unwrap_err(), not_found("tags"));
    assert_eq!(
        Operation::from_str("2023-01-15,x,1,d,t").unwrap_err(),
        thunes::operations::Error::InvalidOperation("x".to_string())
    );
    // The operation is looked at last.
    assert_eq!(Operation::from_str("2023-01-15,x,much").unwrap_err(), failed("ammount"));
    assert_eq!(Operation::from_fields(&vec![], None).unwrap_err(), not_found("date"));
    let fields: Vec<String> = ["whatever", "s", "2", "d", "t"].iter().map(|s| s.to_string()).collect();
    assert_eq!(Operation::from_fields(&fields, Some(day(2020, 1, 1))).unwrap().date(), day(2020, 1, 1));
}

#[test]
fn days_are_compared_and_written() {
    let a = day(2024, 1, 5);
    assert!(date_eq(&a, day(2024, 1, 5)));
    assert!(!date_eq(&a, day(2024, 1, 6)));
    assert!(date_neq(&a, day(2024, 1, 6)));
    assert!(!date_neq(&a, day(2024, 1, 5)));
    assert!(date_sup(&a, day(2024, 1, 5)));
    assert!(date_sup(&a, day(2023, 12, 31)));
    assert!(!date_sup(&a, day(2024, 1, 6)));
    assert!(date_inf(&a, day(2024, 1, 5)));
    assert!(date_inf(&a, day(2024, 2, 1)));
    assert!(!date_inf(&a, day(2024, 1, 4)));
    assert_eq!(new_date("2024-01-05"), Some(a));
    assert_eq!(new_date("2024-1-5"), None);
    assert_eq!(new_date("2023-02-29"), None);
    assert_eq!(new_date("tomorrow"), None);
    assert_eq!(format_date(&a), Some("2024-01-05".to_string()));
    assert_eq!(format_date(&day(2023, 2, 29)), None);
    assert_eq!(format_date(&day(2023, 13, 1)), None);
}
