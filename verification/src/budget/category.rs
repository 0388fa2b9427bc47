//! The transactions behind one figure of the expense report: those of one
//! category, booked on the accounts of a budget within a period.

use crate::budget::ExpensesPeriod;
use crate::datetime::{rfc3339_text, utc_to_rfc3339, DateTime};
use crate::store::{account_ids, booked_within_under, budget_by_id, ids_of_accounts, Snapshot, SnapshotView};
use crate::transaction::{transaction_views, TransactionView, TransactionWithId};
use crate::{Error, RecordId, RecordIdView};
use vstd::prelude::*;

verus! {

/// The transactions of one category over a period, with the two ends of the
/// period as RFC 3339 text.
#[derive(Debug)]
pub struct ReadCategoryResult {
    pub period_start: String,
    pub period_end: String,
    pub category: RecordId,
    pub transactions: Vec<TransactionWithId>,
}

/// What a `ReadCategoryResult` stands for in contracts.
pub ghost struct ReadCategoryResultView {
    pub period_start: Seq<char>,
    pub period_end: Seq<char>,
    pub category: RecordIdView,
    pub transactions: Seq<TransactionView>,
}

impl View for ReadCategoryResult {
    type V = ReadCategoryResultView;

    open spec fn view(&self) -> ReadCategoryResultView {
        ReadCategoryResultView {
            period_start: self.period_start@,
            period_end: self.period_end@,
            category: self.category@,
            transactions: transaction_views(self.transactions@),
        }
    }
}

/// Which category and which period the transactions are asked for.
#[derive(Debug)]
pub struct ReadCategoryOptions {
    pub period: ExpensesPeriod,
    pub category: RecordId,
    pub start_date: DateTime,
}

/// The result made of its four parts.
pub fn assemble(
    period_start: String,
    period_end: String,
    category: RecordId,
    transactions: Vec<TransactionWithId>,
) -> (r: ReadCategoryResult)
    ensures
        r@.period_start == period_start@,
        r@.period_end == period_end@,
        r@.category == category@,
        r@.transactions == transaction_views(transactions@),
{
    ReadCategoryResult { period_start, period_end, category, transactions }
}

/// The result that `read` owes: the failure of the calendar where the period
/// cannot be resolved; otherwise `RecordNotFound` where the snapshot holds no
/// such budget; otherwise the transactions of the snapshot, in the order
/// stored, that are booked on an account of the budget under the category at
/// a date within the window, both ends included.
pub open spec fn category_report(
    snapshot: SnapshotView,
    budget_id: RecordIdView,
    period: ExpensesPeriod,
    category: RecordIdView,
    start_date: DateTime,
) -> Result<ReadCategoryResultView, Error> {
    match period.window_at(start_date) {
        Err(e) => Err(e),
        Ok((start, end)) => match budget_by_id(snapshot.budgets, budget_id) {
            None => Err(Error::RecordNotFound),
            Some(budget) => Ok(
                ReadCategoryResultView {
                    period_start: rfc3339_text(start),
                    period_end: rfc3339_text(end),
                    category,
                    transactions: snapshot.transactions.filter(
                        booked_within_under(account_ids(budget.accounts), category, start, end),
                    ),
                },
            ),
        },
    }
}

/// The view of a result or of the failure in its place.
pub open spec fn category_report_view(r: Result<ReadCategoryResult, Error>) -> Result<
    ReadCategoryResultView,
    Error,
> {
    match r {
        Ok(report) => Ok(report@),
        Err(e) => Err(e),
    }
}

/// The transactions of the category that `options` names, booked on the
/// accounts of the budget `budget_id` within the period that `options` asks
/// for, from the records of `snapshot`.
pub fn read(snapshot: &Snapshot, budget_id: &RecordId, options: ReadCategoryOptions) -> (r: Result<
    ReadCategoryResult,
    Error,
>)
    ensures
        category_report_view(r) == category_report(
            snapshot@,
            budget_id@,
            options.period,
            options.category@,
            options.start_date,
        ),
{
    let (start, end) = match options.period.resolve(options.start_date) {
        Ok(window) => window,
        Err(e) => {
            return Err(e);
        },
    };
    let budget = match snapshot.get_budget(budget_id) {
        Some(budget) => budget,
        None => {
            return Err(Error::RecordNotFound);
        },
    };
    let accounts = ids_of_accounts(&budget.accounts);
    let transactions = snapshot.list_transactions_by_category(
        &accounts,
        &options.category,
        start,
        end,
    );
    let period_start = utc_to_rfc3339(start);
    let period_end = utc_to_rfc3339(end);
    Ok(assemble(period_start, period_end, options.category, transactions))
}

} // verus!
