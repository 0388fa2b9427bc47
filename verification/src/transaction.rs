//! Transactions: what was paid or received, when, on which account and
//! under which category.

use crate::datetime::{
    days_before, lemma_order_total, lemma_order_transitive, utc_checked_sub_days, DateTime,
};
use crate::money::{lemma_sum_push, sum};
use crate::store::{account_by_id, Snapshot, SnapshotView};
use crate::text::{matches_ignoring_case, occurs_in_ignoring_case};
use crate::{ChronoLocalResultError, Error};
use crate::transaction::tag::{clone_optional_text, optional_text_view};
use crate::{optional_id_view, RecordId, RecordIdView};
use vstd::prelude::*;

pub mod category;
pub mod tag;

pub use category::{CategoryWithId, Icon};
pub use tag::Tag;

verus! {

/// What a transaction says: income is positive, spending negative.
#[derive(Debug)]
pub struct Transaction {
    pub date: DateTime,
    pub amount: i64,
    pub description: String,
    pub tags: Vec<Tag>,
}

/// A stored transaction, with the account it belongs to and its category.
#[derive(Debug)]
pub struct TransactionWithId {
    pub inner: Transaction,
    pub id: RecordId,
    pub account: RecordId,
    pub category: RecordId,
}

/// What a `TransactionWithId` stands for in contracts.
pub ghost struct TransactionView {
    pub date: DateTime,
    pub amount: int,
    pub description: Seq<char>,
    pub tags: Seq<tag::TagView>,
    pub id: RecordIdView,
    pub account: RecordIdView,
    pub category: RecordIdView,
}

impl Clone for Transaction {
    fn clone(&self) -> (r: Self)
        ensures
            r.date == self.date,
            r.amount == self.amount,
            r.description@ == self.description@,
            tag::tag_views(r.tags@) == tag::tag_views(self.tags@),
    {
        Transaction {
            date: self.date,
            amount: self.amount,
            description: self.description.clone(),
            tags: tag::clone_tags(&self.tags),
        }
    }
}

impl View for TransactionWithId {
    type V = TransactionView;

    open spec fn view(&self) -> TransactionView {
        TransactionView {
            date: self.inner.date,
            amount: self.inner.amount as int,
            description: self.inner.description@,
            tags: tag::tag_views(self.inner.tags@),
            id: self.id@,
            account: self.account@,
            category: self.category@,
        }
    }
}

impl Clone for TransactionWithId {
    fn clone(&self) -> (r: Self)
        ensures
            r@ == self@,
    {
        TransactionWithId {
            inner: self.inner.clone(),
            id: self.id.clone(),
            account: self.account.clone(),
            category: self.category.clone(),
        }
    }
}

/// How the transactions of an account are to be narrowed down. Every field is
/// optional; `last_x_days`, where given, takes the place of `start` and `end`.
#[derive(Debug)]
pub struct ReadTransactionOptions {
    pub search: Option<String>,
    pub category: Option<RecordId>,
    pub start: Option<DateTime>,
    pub end: Option<DateTime>,
    pub last_x_days: Option<u32>,
}

/// What a `ReadTransactionOptions` stands for in contracts.
pub ghost struct ReadTransactionOptionsView {
    pub search: Option<Seq<char>>,
    pub category: Option<RecordIdView>,
    pub start: Option<DateTime>,
    pub end: Option<DateTime>,
    pub last_x_days: Option<u32>,
}

impl View for ReadTransactionOptions {
    type V = ReadTransactionOptionsView;

    open spec fn view(&self) -> ReadTransactionOptionsView {
        ReadTransactionOptionsView {
            search: optional_text_view(self.search),
            category: optional_id_view(self.category),
            start: self.start,
            end: self.end,
            last_x_days: self.last_x_days,
        }
    }
}

impl Clone for ReadTransactionOptions {
    fn clone(&self) -> (r: Self)
        ensures
            r@ == self@,
    {
        ReadTransactionOptions {
            search: clone_optional_text(&self.search),
            category: match &self.category {
                Some(c) => Some(c.clone()),
                None => None,
            },
            start: self.start,
            end: self.end,
            last_x_days: self.last_x_days,
        }
    }
}

impl ReadTransactionOptions {
    /// The view of the options that narrow nothing down.
    pub open spec fn default_view() -> ReadTransactionOptionsView {
        ReadTransactionOptionsView {
            search: None,
            category: None,
            start: None,
            end: None,
            last_x_days: None,
        }
    }
}

impl Default for ReadTransactionOptions {
    /// The options that narrow nothing down.
    fn default() -> (r: Self)
        ensures
            r@ == ReadTransactionOptions::default_view(),
    {
        ReadTransactionOptions {
            search: None,
            category: None,
            start: None,
            end: None,
            last_x_days: None,
        }
    }
}

/// The views of a run of transactions, in order.
pub open spec fn transaction_views(transactions: Seq<TransactionWithId>) -> Seq<TransactionView> {
    transactions.map_values(|t: TransactionWithId| t@)
}

/// The amounts of a run of transactions, in order.
pub open spec fn transaction_amounts(transactions: Seq<TransactionView>) -> Seq<int> {
    transactions.map_values(|t: TransactionView| t.amount)
}

/// The sum of the amounts of `transactions`.
pub fn total_amount(transactions: &Vec<TransactionWithId>) -> (r: i128)
    ensures
        r == sum(transaction_amounts(transaction_views(transactions@))),
{
    let mut total: i128 = 0;
    let mut i: usize = 0;
    proof {
        assert(transaction_amounts(transaction_views(transactions@.take(0))) =~= Seq::empty());
    }
    while i < transactions.len()
        invariant
            i <= transactions.len(),
            total == sum(transaction_amounts(transaction_views(transactions@.take(i as int)))),
            i * i64::MIN <= total <= i * i64::MAX,
        decreases transactions.len() - i,
    {
        proof {
            let before = transaction_amounts(transaction_views(transactions@.take(i as int)));
            assert(transaction_amounts(transaction_views(transactions@.take(i + 1))) =~= before.push(
                transactions@[i as int].inner.amount as int,
            ));
            lemma_sum_push(before, transactions@[i as int].inner.amount as int);
        }
        total = total + (transactions[i].inner.amount as i128);
        i += 1;
    }
    assert(transactions@.take(transactions.len() as int) =~= transactions@);
    total
}

/// The test that the transactions of one account are held to, made from
/// filter options: every part that is given must hold.
#[derive(Debug)]
pub struct TransactionFilter {
    /// The account that the transactions are booked on.
    pub account: RecordId,
    /// Text that the description holds, without regard to case.
    pub search: Option<String>,
    /// The category of the transactions.
    pub category: Option<RecordId>,
    /// The earliest date, itself included.
    pub start: Option<DateTime>,
    /// The latest date, itself included.
    pub end: Option<DateTime>,
}

/// What a `TransactionFilter` stands for in contracts.
pub ghost struct TransactionFilterView {
    pub account: RecordIdView,
    pub search: Option<Seq<char>>,
    pub category: Option<RecordIdView>,
    pub start: Option<DateTime>,
    pub end: Option<DateTime>,
}

impl View for TransactionFilter {
    type V = TransactionFilterView;

    open spec fn view(&self) -> TransactionFilterView {
        TransactionFilterView {
            account: self.account@,
            search: optional_text_view(self.search),
            category: optional_id_view(self.category),
            start: self.start,
            end: self.end,
        }
    }
}

/// Whether the transaction passes the filter.
pub open spec fn accepts(filter: TransactionFilterView, t: TransactionView) -> bool {
    &&& t.account == filter.account
    &&& filter.search matches Some(text) ==> occurs_in_ignoring_case(text, t.description)
    &&& filter.category matches Some(category) ==> t.category == category
    &&& filter.start matches Some(start) ==> start.at_or_before(t.date)
    &&& filter.end matches Some(end) ==> t.date.at_or_before(end)
}

/// `accepts` against a fixed filter, as a test of transactions.
pub open spec fn accepted_by(filter: TransactionFilterView) -> spec_fn(TransactionView) -> bool {
    |t: TransactionView| accepts(filter, t)
}

/// The options that a listing goes by: those supplied, else those stored
/// with the account, else none, which is the failure `RecordNotFound`.
pub open spec fn options_in_force(
    supplied: Option<ReadTransactionOptionsView>,
    stored: Option<ReadTransactionOptionsView>,
) -> Result<ReadTransactionOptionsView, Error> {
    match supplied {
        Some(options) => Ok(options),
        None => match stored {
            Some(options) => Ok(options),
            None => Err(Error::RecordNotFound),
        },
    }
}

/// The filter that `options` make for `account`, where `earlier` is the
/// instant that lies `last_x_days` days before `now`. With `last_x_days` the
/// window runs from `earlier` to `now` and the two dates of the options are
/// left aside; it fails where the calendar has no such instant. Without it
/// the window is that of the two dates.
pub open spec fn filter_from(
    account: RecordIdView,
    options: ReadTransactionOptionsView,
    now: DateTime,
    earlier: Option<DateTime>,
) -> Result<TransactionFilterView, Error> {
    match options.last_x_days {
        Some(_) => match earlier {
            Some(start) => Ok(
                TransactionFilterView {
                    account,
                    search: options.search,
                    category: options.category,
                    start: Some(start),
                    end: Some(now),
                },
            ),
            None => Err(Error::Time(ChronoLocalResultError::Missing)),
        },
        None => Ok(
            TransactionFilterView {
                account,
                search: options.search,
                category: options.category,
                start: options.start,
                end: options.end,
            },
        ),
    }
}

/// The instant that lies as many days before `now` as `options` ask for;
/// none where they ask for no number of days or `now` is no instant.
pub open spec fn start_of_last_days(options: ReadTransactionOptionsView, now: DateTime) -> Option<
    DateTime,
> {
    match options.last_x_days {
        Some(days) => if now.is_valid() {
            days_before(now, days as int)
        } else {
            None
        },
        None => None,
    }
}

/// The filter that `options` make for `account` at the instant `now`.
pub open spec fn compiled(
    account: RecordIdView,
    options: ReadTransactionOptionsView,
    now: DateTime,
) -> Result<TransactionFilterView, Error> {
    filter_from(account, options, now, start_of_last_days(options, now))
}

/// The view of a filter or of the failure in its place.
pub open spec fn filter_result_view(r: Result<TransactionFilter, Error>) -> Result<
    TransactionFilterView,
    Error,
> {
    match r {
        Ok(f) => Ok(f@),
        Err(e) => Err(e),
    }
}

/// The view of options or of the failure in their place.
pub open spec fn options_result_view(r: Result<ReadTransactionOptions, Error>) -> Result<
    ReadTransactionOptionsView,
    Error,
> {
    match r {
        Ok(o) => Ok(o@),
        Err(e) => Err(e),
    }
}

/// The view of optional options.
pub open spec fn optional_options_view(options: Option<ReadTransactionOptions>) -> Option<
    ReadTransactionOptionsView,
> {
    match options {
        Some(o) => Some(o@),
        None => None,
    }
}

/// The options that a listing goes by: those supplied, else those stored
/// with the account; `RecordNotFound` where there are neither.
pub fn resolve_options(
    supplied: Option<ReadTransactionOptions>,
    stored: Option<ReadTransactionOptions>,
) -> (r: Result<ReadTransactionOptions, Error>)
    ensures
        options_result_view(r) == options_in_force(
            optional_options_view(supplied),
            optional_options_view(stored),
        ),
{
    match supplied {
        Some(options) => Ok(options),
        None => match stored {
            Some(options) => Ok(options),
            None => Err(Error::RecordNotFound),
        },
    }
}

impl TransactionFilter {
    /// The filter that `options` make for `account`, given the instant
    /// `earlier` that lies `last_x_days` days before `now`.
    pub fn from_options(
        account: RecordId,
        options: ReadTransactionOptions,
        now: DateTime,
        earlier: Option<DateTime>,
    ) -> (r: Result<TransactionFilter, Error>)
        ensures
            filter_result_view(r) == filter_from(account@, options@, now, earlier),
    {
        match options.last_x_days {
            Some(_) => match earlier {
                Some(start) => Ok(
                    TransactionFilter {
                        account,
                        search: options.search,
                        category: options.category,
                        start: Some(start),
                        end: Some(now),
                    },
                ),
                None => Err(Error::Time(ChronoLocalResultError::Missing)),
            },
            None => Ok(
                TransactionFilter {
                    account,
                    search: options.search,
                    category: options.category,
                    start: options.start,
                    end: options.end,
                },
            ),
        }
    }

    /// The filter that `options` make for `account` at the instant `now`.
    pub fn compile(account: RecordId, options: ReadTransactionOptions, now: DateTime) -> (r: Result<
        TransactionFilter,
        Error,
    >)
        ensures
            filter_result_view(r) == compiled(account@, options@, now),
    {
        let earlier = match options.last_x_days {
            Some(days) => if now.check_valid() {
                utc_checked_sub_days(now, days)
            } else {
                None
            },
            None => None,
        };
        TransactionFilter::from_options(account, options, now, earlier)
    }

    /// Whether the transaction passes the filter.
    pub fn matches(&self, t: &TransactionWithId) -> (r: bool)
        ensures
            r == accepts(self@, t@),
    {
        let found = match &self.search {
            Some(text) => matches_ignoring_case(text.as_str(), t.inner.description.as_str()),
            None => true,
        };
        let filed = match &self.category {
            Some(category) => t.category.same(category),
            None => true,
        };
        let late_enough = match &self.start {
            Some(start) => start.is_at_or_before(&t.inner.date),
            None => true,
        };
        let early_enough = match &self.end {
            Some(end) => t.inner.date.is_at_or_before(end),
            None => true,
        };
        t.account.same(&self.account) && found && filed && late_enough && early_enough
    }

    /// The transactions that pass the filter, in the order given.
    pub fn select(&self, transactions: &Vec<TransactionWithId>) -> (r: Vec<TransactionWithId>)
        ensures
            transaction_views(r@) == transaction_views(transactions@).filter(accepted_by(self@)),
    {
        let ghost test = accepted_by(self@);
        let mut out: Vec<TransactionWithId> = Vec::new();
        let mut i: usize = 0;
        proof {
            reveal(Seq::filter);
            assert(transaction_views(transactions@.take(0)) =~= Seq::empty());
            assert(transaction_views(out@) =~= Seq::empty());
        }
        while i < transactions.len()
            invariant
                i <= transactions.len(),
                test == accepted_by(self@),
                transaction_views(out@) == transaction_views(transactions@.take(i as int)).filter(
                    test,
                ),
            decreases transactions.len() - i,
        {
            let ghost before = transaction_views(transactions@.take(i as int));
            let ghost kept = transaction_views(out@);
            proof {
                assert(transaction_views(transactions@.take(i + 1)) =~= before.push(
                    transactions@[i as int]@,
                ));
                before.lemma_filter_push(transactions@[i as int]@, test);
            }
            if self.matches(&transactions[i]) {
                let copy = transactions[i].clone();
                out.push(copy);
                assert(transaction_views(out@) =~= kept.push(transactions@[i as int]@));
            }
            i += 1;
        }
        assert(transactions@.take(transactions.len() as int) =~= transactions@);
        out
    }
}

/// Whether no transaction of the run is more recent than one before it.
pub open spec fn most_recent_first(transactions: Seq<TransactionView>) -> bool {
    forall|i: int, j: int|
        0 <= i < j < transactions.len() ==> (#[trigger] transactions[j]).date.at_or_before(
            (#[trigger] transactions[i]).date,
        )
}

/// How many of the first transactions of the run are dated at `date` or
/// later.
pub open spec fn not_older(transactions: Seq<TransactionView>, date: DateTime) -> int
    decreases transactions.len(),
{
    if transactions.len() == 0 || !date.at_or_before(transactions[0].date) {
        0
    } else {
        1 + not_older(transactions.skip(1), date)
    }
}

/// The transactions from the most recent to the oldest: each in turn is put
/// behind those already placed that are dated as it is or later, so that
/// transactions of one date keep the order in which they were given.
pub open spec fn sorted_recent_first(transactions: Seq<TransactionView>) -> Seq<TransactionView>
    decreases transactions.len(),
{
    if transactions.len() == 0 {
        transactions
    } else {
        let placed = sorted_recent_first(transactions.drop_last());
        placed.insert(not_older(placed, transactions.last().date), transactions.last())
    }
}

/// The place that `not_older` gives lies within the run; every transaction
/// before it is dated at `date` or later, and where the run goes from the
/// most recent to the oldest every transaction from it on is dated at `date`
/// or before.
pub proof fn lemma_not_older(transactions: Seq<TransactionView>, date: DateTime)
    ensures
        0 <= not_older(transactions, date) <= transactions.len(),
        forall|j: int|
            0 <= j < not_older(transactions, date) ==> date.at_or_before(
                (#[trigger] transactions[j]).date,
            ),
        most_recent_first(transactions) ==> forall|j: int|
            not_older(transactions, date) <= j < transactions.len() ==> (
            #[trigger] transactions[j]).date.at_or_before(date),
    decreases transactions.len(),
{
    if transactions.len() > 0 {
        let rest = transactions.skip(1);
        lemma_not_older(rest, date);
        if date.at_or_before(transactions[0].date) {
            assert forall|j: int| 0 <= j < not_older(transactions, date) implies date.at_or_before(
                (#[trigger] transactions[j]).date,
            ) by {
                if j > 0 {
                    assert(transactions[j] == rest[j - 1]);
                }
            }
            if most_recent_first(transactions) {
                assert(most_recent_first(rest)) by {
                    assert forall|a: int, b: int| 0 <= a < b < rest.len() implies (
                    #[trigger] rest[b]).date.at_or_before((#[trigger] rest[a]).date) by {
                        assert(rest[a] == transactions[a + 1]);
                        assert(rest[b] == transactions[b + 1]);
                    }
                }
                assert forall|j: int|
                    not_older(transactions, date) <= j < transactions.len() implies (
                #[trigger] transactions[j]).date.at_or_before(date) by {
                    assert(transactions[j] == rest[j - 1]);
                }
            }
        } else if most_recent_first(transactions) {
            lemma_order_total(date, transactions[0].date);
            assert forall|j: int| 0 <= j < transactions.len() implies (
            #[trigger] transactions[j]).date.at_or_before(date) by {
                if j > 0 {
                    lemma_order_transitive(transactions[j].date, transactions[0].date, date);
                }
            }
        }
    }
}

/// What `sorted_recent_first` gives goes from the most recent to the oldest
/// and holds the transactions it was given, each as often as it was given.
pub proof fn lemma_sorted_recent_first(transactions: Seq<TransactionView>)
    ensures
        most_recent_first(sorted_recent_first(transactions)),
        sorted_recent_first(transactions).to_multiset() == transactions.to_multiset(),
        sorted_recent_first(transactions).len() == transactions.len(),
    decreases transactions.len(),
{
    if transactions.len() > 0 {
        let rest = transactions.drop_last();
        let t = transactions.last();
        lemma_sorted_recent_first(rest);
        let placed = sorted_recent_first(rest);
        lemma_not_older(placed, t.date);
        let k = not_older(placed, t.date);
        let now = placed.insert(k, t);
        assert forall|a: int, b: int| 0 <= a < b < now.len() implies (
        #[trigger] now[b]).date.at_or_before((#[trigger] now[a]).date) by {
            if b == k {
                assert(now[a] == placed[a]);
            } else if a == k {
                assert(now[b] == placed[b - 1]);
            } else if a < k && k < b {
                assert(placed[b - 1].date.at_or_before(placed[a].date));
            } else if b < k {
                assert(placed[b].date.at_or_before(placed[a].date));
            } else {
                assert(placed[b - 1].date.at_or_before(placed[a - 1].date));
            }
        }
        assert(transactions =~= rest.push(t));
        vstd::seq_lib::to_multiset_build(rest, t);
        vstd::seq_lib::to_multiset_insert(placed, k, t);
    }
}

/// The transactions from the most recent to the oldest; those of one date
/// keep the order in which they were given.
pub fn sort_most_recent_first(transactions: &Vec<TransactionWithId>) -> (r: Vec<TransactionWithId>)
    ensures
        transaction_views(r@) == sorted_recent_first(transaction_views(transactions@)),
        most_recent_first(transaction_views(r@)),
        transaction_views(r@).to_multiset() == transaction_views(transactions@).to_multiset(),
{
    let mut out: Vec<TransactionWithId> = Vec::new();
    let mut i: usize = 0;
    proof {
        assert(transaction_views(transactions@.take(0)) =~= Seq::empty());
        assert(transaction_views(out@) =~= Seq::empty());
    }
    while i < transactions.len()
        invariant
            i <= transactions.len(),
            out.len() == i,
            transaction_views(out@) == sorted_recent_first(
                transaction_views(transactions@.take(i as int)),
            ),
        decreases transactions.len() - i,
    {
        let t = transactions[i].clone();
        let ghost sorted = transaction_views(out@);
        proof {
            let seen = transaction_views(transactions@.take(i as int));
            let next = transaction_views(transactions@.take(i + 1));
            assert(next =~= seen.push(t@));
            assert(next.drop_last() =~= seen);
            assert(sorted.skip(0) =~= sorted);
        }
        let mut k: usize = 0;
        while k < out.len() && t.inner.date.is_at_or_before(&out[k].inner.date)
            invariant
                k <= out.len(),
                sorted == transaction_views(out@),
                not_older(sorted, t@.date) == k + not_older(sorted.skip(k as int), t@.date),
            decreases out.len() - k,
        {
            proof {
                assert(sorted.skip(k as int)[0] == out@[k as int]@);
                assert(sorted.skip(k as int).skip(1) =~= sorted.skip(k + 1));
            }
            k += 1;
        }
        proof {
            if k < out.len() {
                assert(sorted.skip(k as int)[0] == out@[k as int]@);
            } else {
                assert(sorted.skip(k as int).len() == 0);
            }
        }
        out.insert(k, t);
        assert(transaction_views(out@) =~= sorted.insert(k as int, t@));
        i += 1;
    }
    proof {
        assert(transactions@.take(transactions.len() as int) =~= transactions@);
        lemma_sorted_recent_first(transaction_views(transactions@));
    }
    out
}

/// The options stored with the account `account`, if the snapshot holds it.
pub open spec fn stored_options(snapshot: SnapshotView, account: RecordIdView) -> Option<
    ReadTransactionOptionsView,
> {
    match account_by_id(snapshot.accounts, account) {
        Some(a) => Some(a.data.filter),
        None => None,
    }
}

impl Snapshot {
    /// The filter options stored with the account `account`, if the snapshot
    /// holds the account.
    pub fn get_account_default_filter(&self, account: &RecordId) -> (r: Option<
        ReadTransactionOptions,
    >)
        ensures
            optional_options_view(r) == stored_options(self@, account@),
    {
        match self.get_account(account) {
            Some(account) => Some(account.data.filter),
            None => None,
        }
    }
}

/// The filter that a listing of `account` goes by at the instant `now`.
pub open spec fn filter_in_force(
    snapshot: SnapshotView,
    account: RecordIdView,
    supplied: Option<ReadTransactionOptionsView>,
    now: DateTime,
) -> Result<TransactionFilterView, Error> {
    match options_in_force(supplied, stored_options(snapshot, account)) {
        Ok(options) => compiled(account, options, now),
        Err(e) => Err(e),
    }
}

/// The transactions of the account `account_id` that pass `filter`, the most
/// recent first. Without `filter` the options stored with the account are
/// used; it fails with `RecordNotFound` where there are neither, and with the
/// failure of the calendar where `last_x_days` reaches back too far.
pub fn read(
    snapshot: &Snapshot,
    account_id: &RecordId,
    filter: Option<ReadTransactionOptions>,
    now: DateTime,
) -> (r: Result<Vec<TransactionWithId>, Error>)
    ensures
        match filter_in_force(snapshot@, account_id@, optional_options_view(filter), now) {
            Ok(f) => r matches Ok(list) && transaction_views(list@) == sorted_recent_first(
                snapshot@.transactions.filter(accepted_by(f)),
            ),
            Err(e) => r matches Err(f) && f == e,
        },
{
    let stored = snapshot.get_account_default_filter(account_id);
    let options = match resolve_options(filter, stored) {
        Ok(options) => options,
        Err(e) => {
            return Err(e);
        },
    };
    let compiled = match TransactionFilter::compile(account_id.clone(), options, now) {
        Ok(f) => f,
        Err(e) => {
            return Err(e);
        },
    };
    let selected = compiled.select(&snapshot.transactions);
    Ok(sort_most_recent_first(&selected))
}

} // verus!
