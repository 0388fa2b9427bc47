//! Accounts kept as a journal: the transactions of an account in the order
//! of their dates, what lies between two dates, and totals by currency.

use crate::datetime::days_in_month;
use crate::money::{checked_amount, fits_amount, lemma_sum_push, sum};
use crate::text::{
    chars_of, comes_before, lemma_precedes_total, lemma_precedes_transitive, precedes, split,
    texts, without_repeats,
};
use vstd::prelude::*;

verus! {

/// A day of the calendar.
#[derive(Clone, Copy, Debug, PartialEq, Eq, Structural)]
pub struct Date {
    pub year: i32,
    pub month: u8,
    pub day: u8,
}

impl Date {
    /// The fields name an existing day of the years -9999 to 9999.
    pub open spec fn is_valid(self) -> bool {
        &&& -9999 <= self.year <= 9999
        &&& 1 <= self.month <= 12
        &&& 1 <= self.day <= days_in_month(self.year as int, self.month as int)
    }

    /// `self` is an earlier day than `other`.
    pub open spec fn before(self, other: Date) -> bool {
        if self.year != other.year {
            self.year < other.year
        } else if self.month != other.month {
            self.month < other.month
        } else {
            self.day < other.day
        }
    }

    /// `self` is no later a day than `other`.
    pub open spec fn at_or_before(self, other: Date) -> bool {
        self.before(other) || self == other
    }

    /// Whether `self` is an earlier day than `other`.
    pub fn is_before(&self, other: &Date) -> (r: bool)
        ensures
            r == self.before(*other),
    {
        if self.year != other.year {
            self.year < other.year
        } else if self.month != other.month {
            self.month < other.month
        } else {
            self.day < other.day
        }
    }

    /// Whether `self` is no later a day than `other`.
    pub fn is_at_or_before(&self, other: &Date) -> (r: bool)
        ensures
            r == self.at_or_before(*other),
    {
        !other.is_before(self)
    }
}

/// Whether two days are the same.
pub fn date_eq(date1: &Date, date2: Date) -> (r: bool)
    ensures
        r == (*date1 == date2),
{
    *date1 == date2
}

/// Whether two days differ.
pub fn date_neq(date1: &Date, date2: Date) -> (r: bool)
    ensures
        r == (*date1 != date2),
{
    *date1 != date2
}

/// Whether the first day is the second or a later one.
pub fn date_sup(date1: &Date, date2: Date) -> (r: bool)
    ensures
        r == date2.at_or_before(*date1),
{
    date2.is_at_or_before(date1)
}

/// Whether the first day is the second or an earlier one.
pub fn date_inf(date1: &Date, date2: Date) -> (r: bool)
    ensures
        r == date1.at_or_before(date2),
{
    date1.is_at_or_before(&date2)
}

/// What every transaction of a journal says.
#[derive(Debug)]
pub struct Item {
    pub date: Date,
    pub amount: i64,
    pub description: String,
    /// The tags of the transaction, none of them twice.
    pub tags: Vec<String>,
}

impl Item {
    /// No tag of the transaction occurs twice.
    pub open spec fn tags_differ(&self) -> bool {
        texts(self.tags@).no_duplicates()
    }
}

/// A transaction of a journal.
#[derive(Debug)]
pub enum Transaction {
    /// Adds currency to the account.
    Income(Item),
    /// Takes currency from the account.
    Spending(Item),
}

/// What a journal `Transaction` stands for in contracts. The amount is what
/// the transaction adds to the account: negative for spending.
pub ghost struct TransactionView {
    pub date: Date,
    pub amount: int,
    pub description: Seq<char>,
    pub tags: Seq<Seq<char>>,
    pub spending: bool,
}

impl Transaction {
    /// What the transaction says, whichever way the money goes.
    pub open spec fn item(&self) -> Item {
        match self {
            Transaction::Income(item) => *item,
            Transaction::Spending(item) => *item,
        }
    }

    /// The day of the transaction.
    pub fn date(&self) -> (r: &Date)
        ensures
            *r == self@.date,
    {
        match self {
            Transaction::Income(item) => &item.date,
            Transaction::Spending(item) => &item.date,
        }
    }

    /// What the transaction adds to the account: its amount for income, the
    /// opposite of its amount for spending.
    pub fn amount(&self) -> (r: i128)
        ensures
            r == self@.amount,
    {
        match self {
            Transaction::Income(item) => item.amount as i128,
            Transaction::Spending(item) => -(item.amount as i128),
        }
    }

    /// What the transaction was for.
    pub fn description(&self) -> (r: &str)
        ensures
            r@ == self@.description,
    {
        match self {
            Transaction::Income(item) => item.description.as_str(),
            Transaction::Spending(item) => item.description.as_str(),
        }
    }

    /// The tags of the transaction.
    pub fn tags(&self) -> (r: &Vec<String>)
        ensures
            texts(r@) == self@.tags,
    {
        match self {
            Transaction::Income(item) => &item.tags,
            Transaction::Spending(item) => &item.tags,
        }
    }
}

impl View for Transaction {
    type V = TransactionView;

    open spec fn view(&self) -> TransactionView {
        match self {
            Transaction::Income(item) => TransactionView {
                date: item.date,
                amount: item.amount as int,
                description: item.description@,
                tags: texts(item.tags@),
                spending: false,
            },
            Transaction::Spending(item) => TransactionView {
                date: item.date,
                amount: -(item.amount as int),
                description: item.description@,
                tags: texts(item.tags@),
                spending: true,
            },
        }
    }
}

/// The views of a run of journal transactions, in order.
pub open spec fn transaction_views(transactions: Seq<Transaction>) -> Seq<TransactionView> {
    transactions.map_values(|t: Transaction| t@)
}

/// The tags that a list separated by commas names, each once, in the order
/// in which they first occur.
pub fn parse_tags(list: &str) -> (r: Vec<String>)
    ensures
        texts(r@) == crate::text::distinct(crate::text::fields(list@, ',')),
        texts(r@).no_duplicates(),
{
    without_repeats(&split(list, ','))
}

/// Why a journal could not be read.
#[derive(Clone, Copy, Debug, PartialEq, Eq, Structural)]
pub enum Error {
    /// The start of the range asked for lies after its end.
    InvalidDateRange,
    /// The account exists already.
    AlreadyExists,
    /// A script gave neither an amount nor an amount with its currency.
    ScriptEvaluation,
    /// A balance cannot be held as an amount.
    AmountOutOfRange,
}

/// What is stored of a journal.
#[derive(Debug)]
pub struct AccountData {
    pub transactions: Vec<Transaction>,
}

/// A journal: the name of the account, its currency and its transactions.
#[derive(Debug)]
pub struct Account {
    pub name: String,
    pub currency: String,
    pub data: AccountData,
}

/// How many of the first transactions are dated before `start`.
pub open spec fn first_from(transactions: Seq<TransactionView>, start: Date) -> int
    decreases transactions.len(),
{
    if transactions.len() == 0 || !transactions[0].date.before(start) {
        0
    } else {
        1 + first_from(transactions.skip(1), start)
    }
}

/// One past the place of the last transaction dated at `end` or before;
/// zero where there is none.
pub open spec fn last_until(transactions: Seq<TransactionView>, end: Date) -> int
    decreases transactions.len(),
{
    if transactions.len() == 0 {
        0
    } else if transactions.last().date.at_or_before(end) {
        transactions.len() as int
    } else {
        last_until(transactions.drop_last(), end)
    }
}

/// Where the transactions between two optional days start and end: from the
/// first that is not dated before `start` up to the last that is dated at
/// `end` or before.
pub open spec fn range_between(
    transactions: Seq<TransactionView>,
    start: Option<Date>,
    end: Option<Date>,
) -> (int, int) {
    (
        match start {
            Some(s) => first_from(transactions, s),
            None => 0,
        },
        match end {
            Some(e) => last_until(transactions, e),
            None => transactions.len() as int,
        },
    )
}

/// The transactions between two optional days: none where the range starts
/// and ends at the very beginning, those of the range where it starts before
/// it ends, and a failure otherwise.
pub open spec fn between(
    transactions: Seq<TransactionView>,
    start: Option<Date>,
    end: Option<Date>,
) -> Result<Seq<TransactionView>, Error> {
    let (from, to) = range_between(transactions, start, end);
    if from == to && from == 0 {
        Ok(Seq::empty())
    } else if from < to {
        Ok(transactions.subrange(from, to))
    } else {
        Err(Error::InvalidDateRange)
    }
}

/// The view of a run of transactions or of the failure in its place.
pub open spec fn slice_result_view(r: Result<&[Transaction], Error>) -> Result<
    Seq<TransactionView>,
    Error,
> {
    match r {
        Ok(list) => Ok(transaction_views(list@)),
        Err(e) => Err(e),
    }
}

impl Account {
    /// The journal of the account `name` in `currency`, without transactions.
    pub fn open(name: &str, currency: &str) -> (r: Account)
        ensures
            r.name@ == name@,
            r.currency@ == currency@,
            r.data.transactions@.len() == 0,
    {
        Account {
            name: name.to_owned(),
            currency: currency.to_owned(),
            data: AccountData { transactions: Vec::new() },
        }
    }

    /// Adds a transaction after those of the journal.
    pub fn push_transaction(&mut self, transaction: Transaction) -> (r: &mut Self)
        ensures
            *final(self) == *final(r),
            r.data.transactions@ == old(self).data.transactions@.push(transaction),
            r.name == old(self).name,
            r.currency == old(self).currency,
    {
        self.data.transactions.push(transaction);
        self
    }

    /// The name of the account.
    pub fn name(&self) -> (r: &str)
        ensures
            r@ == self.name@,
    {
        self.name.as_str()
    }

    /// The currency of the account.
    pub fn currency(&self) -> (r: &str)
        ensures
            r@ == self.currency@,
    {
        self.currency.as_str()
    }

    /// How many of the first transactions are dated before `start`.
    pub fn position_from(&self, start: &Date) -> (r: usize)
        ensures
            r == first_from(transaction_views(self.data.transactions@), *start),
            r <= self.data.transactions.len(),
    {
        let ghost all = transaction_views(self.data.transactions@);
        let mut i: usize = 0;
        proof {
            assert(all.skip(0) =~= all);
        }
        while i < self.data.transactions.len()
            invariant
                i <= self.data.transactions.len(),
                all == transaction_views(self.data.transactions@),
                first_from(all, *start) == i + first_from(all.skip(i as int), *start),
            decreases self.data.transactions.len() - i,
        {
            proof {
                assert(all.skip(i as int)[0] == self.data.transactions@[i as int]@);
                assert(all.skip(i as int).skip(1) =~= all.skip(i + 1));
            }
            if !self.data.transactions[i].date().is_before(start) {
                return i;
            }
            i += 1;
        }
        i
    }

    /// One past the place of the last transaction dated at `end` or before;
    /// zero where there is none.
    pub fn position_until(&self, end: &Date) -> (r: usize)
        ensures
            r == last_until(transaction_views(self.data.transactions@), *end),
            r <= self.data.transactions.len(),
    {
        let ghost all = transaction_views(self.data.transactions@);
        let mut i: usize = self.data.transactions.len();
        proof {
            assert(all.take(i as int) =~= all);
        }
        while i > 0
            invariant
                i <= self.data.transactions.len(),
                all == transaction_views(self.data.transactions@),
                last_until(all, *end) == last_until(all.take(i as int), *end),
            decreases i,
        {
            proof {
                assert(all.take(i as int).last() == self.data.transactions@[i - 1]@);
                assert(all.take(i as int).drop_last() =~= all.take(i - 1));
            }
            if self.data.transactions[i - 1].date().is_at_or_before(end) {
                return i;
            }
            i -= 1;
        }
        0
    }

    /// The transactions from the first that is not dated before `start` to
    /// the last that is dated at `end` or before; without a day the journal
    /// is taken from its beginning or to its end. Fails where that range
    /// would start at or after its end, unless both are its beginning.
    pub fn transactions_between(&self, start: Option<&Date>, end: Option<&Date>) -> (r: Result<
        &[Transaction],
        Error,
    >)
        ensures
            slice_result_view(r) == between(
                transaction_views(self.data.transactions@),
                optional_day(start),
                optional_day(end),
            ),
    {
        let from = match start {
            Some(start) => self.position_from(start),
            None => 0,
        };
        let to = match end {
            Some(end) => self.position_until(end),
            None => self.data.transactions.len(),
        };
        let all = self.data.transactions.as_slice();
        if from == to && from == 0 {
            let none = vstd::slice::slice_subrange(all, 0, 0);
            assert(transaction_views(none@) =~= Seq::empty());
            Ok(none)
        } else if from < to {
            let some = vstd::slice::slice_subrange(all, from, to);
            assert(transaction_views(some@) =~= transaction_views(
                self.data.transactions@,
            ).subrange(from as int, to as int));
            Ok(some)
        } else {
            Err(Error::InvalidDateRange)
        }
    }
}

/// What the transactions of a run add up to.
pub open spec fn amounts_of(transactions: Seq<TransactionView>) -> Seq<int> {
    transactions.map_values(|t: TransactionView| t.amount)
}

/// What the transactions add to the account, taken together.
pub fn list_between(transactions: &[Transaction]) -> (r: i128)
    ensures
        r == sum(amounts_of(transaction_views(transactions@))),
{
    let mut total: i128 = 0;
    let mut i: usize = 0;
    proof {
        assert(amounts_of(transaction_views(transactions@.take(0))) =~= Seq::empty());
    }
    while i < transactions.len()
        invariant
            i <= transactions.len(),
            total == sum(amounts_of(transaction_views(transactions@.take(i as int)))),
            -(i * 0x8000_0000_0000_0000) <= total <= i * 0x8000_0000_0000_0000,
        decreases transactions.len() - i,
    {
        proof {
            let before = amounts_of(transaction_views(transactions@.take(i as int)));
            assert(amounts_of(transaction_views(transactions@.take(i + 1))) =~= before.push(
                transactions@[i as int]@.amount,
            ));
            lemma_sum_push(before, transactions@[i as int]@.amount);
        }
        total = total + transactions[i].amount();
        i += 1;
    }
    assert(transactions@.take(transactions.len() as int) =~= transactions@);
    total
}

/// The day behind an optional reference to one.
pub open spec fn optional_day(day: Option<&Date>) -> Option<Date> {
    match day {
        Some(d) => Some(*d),
        None => None,
    }
}

/// What the transactions of the account between two optional days add to
/// it, taken together: zero where the range starts and ends at the very
/// beginning of the journal. Fails where the range would start at or after
/// its end otherwise.
pub fn balance_between(account: &Account, start: Option<&Date>, end: Option<&Date>) -> (r: Result<
    i128,
    Error,
>)
    ensures
        match between(
            transaction_views(account.data.transactions@),
            optional_day(start),
            optional_day(end),
        ) {
            Ok(list) => r matches Ok(balance) && balance == sum(amounts_of(list)),
            Err(e) => r == Err::<i128, Error>(e),
        },
{
    match account.transactions_between(start, end) {
        Ok(list) => Ok(list_between(list)),
        Err(e) => Err(e),
    }
}

/// What a script made of the transactions of an account.
#[derive(Debug)]
pub enum ScriptOutcome {
    /// A balance with the currency it is in.
    Named(ScriptAccountBalance),
    /// A balance in the currency of the account.
    Plain(i64),
    /// Anything else.
    Other,
}

/// The balance that a script gives for an account.
#[derive(Debug)]
pub struct ScriptAccountBalance {
    pub amount: i64,
    pub currency: String,
}

/// A balance and the currency it is in.
#[derive(Debug)]
pub struct CurrencyTotal {
    pub currency: String,
    pub total: i64,
}

/// What a `CurrencyTotal` stands for in contracts.
pub ghost struct CurrencyTotalView {
    pub currency: Seq<char>,
    pub total: int,
}

impl View for CurrencyTotal {
    type V = CurrencyTotalView;

    open spec fn view(&self) -> CurrencyTotalView {
        CurrencyTotalView { currency: self.currency@, total: self.total as int }
    }
}

impl Clone for CurrencyTotal {
    fn clone(&self) -> (r: Self)
        ensures
            r@ == self@,
    {
        CurrencyTotal { currency: self.currency.clone(), total: self.total }
    }
}

/// The views of a run of balances, in order.
pub open spec fn total_views(totals: Seq<CurrencyTotal>) -> Seq<CurrencyTotalView> {
    totals.map_values(|t: CurrencyTotal| t@)
}

/// The balance that counts for an account held in `currency`, given what a
/// script made of its transactions: the balance and the currency that the
/// script names, or the balance it gives in the currency of the account.
/// Anything else is a failure.
pub fn script_balance(currency: &str, outcome: ScriptOutcome) -> (r: Result<CurrencyTotal, Error>)
    ensures
        match outcome {
            ScriptOutcome::Named(balance) => r matches Ok(t) && t@ == (CurrencyTotalView {
                currency: balance.currency@,
                total: balance.amount as int,
            }),
            ScriptOutcome::Plain(amount) => r matches Ok(t) && t@ == (CurrencyTotalView {
                currency: currency@,
                total: amount as int,
            }),
            ScriptOutcome::Other => r matches Err(e) && e == Error::ScriptEvaluation,
        },
{
    match outcome {
        ScriptOutcome::Named(balance) => Ok(
            CurrencyTotal { currency: balance.currency, total: balance.amount },
        ),
        ScriptOutcome::Plain(amount) => Ok(CurrencyTotal { currency: currency.to_owned(), total: amount }),
        ScriptOutcome::Other => Err(Error::ScriptEvaluation),
    }
}

/// The test that a balance is in `currency`.
pub open spec fn held_in(currency: Seq<char>) -> spec_fn(CurrencyTotalView) -> bool {
    |t: CurrencyTotalView| t.currency == currency
}

/// The balance of a view.
pub open spec fn total_of() -> spec_fn(CurrencyTotalView) -> int {
    |t: CurrencyTotalView| t.total
}

/// What the balances in `currency` add up to.
pub open spec fn currency_sum(balances: Seq<CurrencyTotalView>, currency: Seq<char>) -> int {
    sum(balances.filter(held_in(currency)).map_values(total_of()))
}

/// Whether the currencies of the run go up strictly in the order of the
/// dictionary.
pub open spec fn currencies_ascend(totals: Seq<CurrencyTotalView>) -> bool {
    forall|i: int, j: int|
        0 <= i < j < totals.len() ==> precedes(
            (#[trigger] totals[i]).currency,
            (#[trigger] totals[j]).currency,
        )
}

/// Whether one of `list` is in `currency`.
pub open spec fn has_currency(list: Seq<CurrencyTotalView>, currency: Seq<char>) -> bool {
    exists|k: int| 0 <= k < list.len() && (#[trigger] list[k]).currency == currency
}

/// Whether `totals` are the totals of `balances` by currency: one for each
/// currency that occurs, carrying the sum of the balances in that currency,
/// in the order of the dictionary.
pub open spec fn totals_of(totals: Seq<CurrencyTotalView>, balances: Seq<CurrencyTotalView>) -> bool {
    &&& currencies_ascend(totals)
    &&& forall|k: int|
        0 <= k < totals.len() ==> (#[trigger] totals[k]).total == currency_sum(
            balances,
            totals[k].currency,
        ) && has_currency(balances, totals[k].currency)
    &&& forall|i: int|
        0 <= i < balances.len() ==> has_currency(totals, (#[trigger] balances[i]).currency)
}

/// Whether the sum of the balances in every currency can be held as an amount.
pub open spec fn currency_sums_fit(balances: Seq<CurrencyTotalView>) -> bool {
    forall|i: int|
        0 <= i < balances.len() ==> fits_amount(
            currency_sum(balances, (#[trigger] balances[i]).currency),
        )
}

/// What the balances in `currency` add up to.
pub fn sum_in_currency(balances: &Vec<CurrencyTotal>, currency: &String) -> (r: i128)
    ensures
        r == currency_sum(total_views(balances@), currency@),
{
    let ghost test = held_in(currency@);
    let mut total: i128 = 0;
    let mut i: usize = 0;
    proof {
        reveal(Seq::filter);
        assert(total_views(balances@.take(0)) =~= Seq::empty());
        assert(Seq::<CurrencyTotalView>::empty().map_values(total_of()) =~= Seq::empty());
    }
    while i < balances.len()
        invariant
            i <= balances.len(),
            test == held_in(currency@),
            total == sum(total_views(balances@.take(i as int)).filter(test).map_values(total_of())),
            i * i64::MIN <= total <= i * i64::MAX,
        decreases balances.len() - i,
    {
        proof {
            let before = total_views(balances@.take(i as int));
            let b = balances@[i as int]@;
            assert(total_views(balances@.take(i + 1)) =~= before.push(b));
            before.lemma_filter_push(b, test);
            if test(b) {
                assert(before.filter(test).push(b).map_values(total_of()) =~= before.filter(
                    test,
                ).map_values(total_of()).push(b.total));
                lemma_sum_push(before.filter(test).map_values(total_of()), b.total);
            }
        }
        if balances[i].currency == *currency {
            total = total + (balances[i].total as i128);
        }
        i += 1;
    }
    assert(balances@.take(balances.len() as int) =~= balances@);
    total
}

/// Where the currency `currency` belongs among `totals`, whose currencies
/// ascend, and whether it stands there already.
fn place_of(totals: &Vec<CurrencyTotal>, currency: &String) -> (r: (usize, bool))
    requires
        currencies_ascend(total_views(totals@)),
    ensures
        r.0 <= totals.len(),
        forall|j: int|
            0 <= j < r.0 ==> precedes((#[trigger] total_views(totals@)[j]).currency, currency@),
        r.1 ==> r.0 < totals.len() && total_views(totals@)[r.0 as int].currency == currency@,
        !r.1 ==> forall|j: int|
            r.0 <= j < totals.len() ==> precedes(
                currency@,
                (#[trigger] total_views(totals@)[j]).currency,
            ),
{
    let wanted = chars_of(currency.as_str());
    let ghost views = total_views(totals@);
    let mut k: usize = 0;
    while k < totals.len()
        invariant
            k <= totals.len(),
            wanted@ == currency@,
            views == total_views(totals@),
            currencies_ascend(views),
            forall|j: int| 0 <= j < k ==> precedes((#[trigger] views[j]).currency, currency@),
        decreases totals.len() - k,
    {
        let here = chars_of(totals[k].currency.as_str());
        assert(here@ == views[k as int].currency);
        if !comes_before(&here, &wanted) {
            proof {
                lemma_precedes_total(here@, wanted@);
            }
            if comes_before(&wanted, &here) {
                proof {
                    assert forall|j: int| k <= j < totals.len() implies precedes(
                        currency@,
                        (#[trigger] views[j]).currency,
                    ) by {
                        if j > k {
                            lemma_precedes_transitive(
                                currency@,
                                views[k as int].currency,
                                views[j].currency,
                            );
                        }
                    }
                }
                return (k, false);
            }
            return (k, true);
        }
        k += 1;
    }
    (k, false)
}

/// The totals of `balances` by currency, in the order of the dictionary.
/// Fails where the sum of a currency cannot be held as an amount, and only
/// there.
pub fn totals_by_currency(balances: &Vec<CurrencyTotal>) -> (r: Result<Vec<CurrencyTotal>, Error>)
    ensures
        r matches Ok(totals) ==> totals_of(total_views(totals@), total_views(balances@)),
        r is Ok <==> currency_sums_fit(total_views(balances@)),
        r matches Err(e) ==> e == Error::AmountOutOfRange,
{
    let ghost all = total_views(balances@);
    let mut out: Vec<CurrencyTotal> = Vec::new();
    let mut i: usize = 0;
    while i < balances.len()
        invariant
            i <= balances.len(),
            all == total_views(balances@),
            currencies_ascend(total_views(out@)),
            forall|k: int|
                0 <= k < out.len() ==> (#[trigger] total_views(out@)[k]).total == currency_sum(
                    all,
                    total_views(out@)[k].currency,
                ) && has_currency(all, total_views(out@)[k].currency),
            forall|j: int|
                0 <= j < i ==> has_currency(total_views(out@), (#[trigger] all[j]).currency),
        decreases balances.len() - i,
    {
        let ghost built = total_views(out@);
        let currency = &balances[i].currency;
        assert(all[i as int].currency == currency@);
        let (at, found) = place_of(&out, currency);
        if !found {
            let total = match checked_amount(sum_in_currency(balances, currency)) {
                Ok(v) => v,
                Err(_) => {
                    return Err(Error::AmountOutOfRange);
                },
            };
            let entry = CurrencyTotal { currency: currency.clone(), total };
            let ghost added = entry@;
            out.insert(at, entry);
            proof {
                let now = total_views(out@);
                assert(now =~= built.insert(at as int, added));
                assert forall|a: int, b: int| 0 <= a < b < now.len() implies precedes(
                    (#[trigger] now[a]).currency,
                    (#[trigger] now[b]).currency,
                ) by {
                    if a < at && b > at {
                        assert(precedes(built[a].currency, built[b - 1].currency));
                    } else if a < at && b < at {
                        assert(precedes(built[a].currency, built[b].currency));
                    } else if a > at {
                        assert(precedes(built[a - 1].currency, built[b - 1].currency));
                    }
                }
                assert forall|k: int| 0 <= k < now.len() implies (#[trigger] now[k]).total
                    == currency_sum(all, now[k].currency) && has_currency(all, now[k].currency) by {
                    if k < at {
                        assert(now[k] == built[k]);
                    } else if k > at {
                        assert(now[k] == built[k - 1]);
                    } else {
                        assert(all[i as int].currency == now[k].currency);
                    }
                }
                assert forall|j: int| 0 <= j < i + 1 implies has_currency(
                    now,
                    (#[trigger] all[j]).currency,
                ) by {
                    if j < i {
                        assert(has_currency(built, all[j].currency));
                        let k = choose|k: int|
                            0 <= k < built.len() && (#[trigger] built[k]).currency
                                == all[j].currency;
                        if k < at {
                            assert(now[k].currency == all[j].currency);
                        } else {
                            assert(now[k + 1].currency == all[j].currency);
                        }
                    } else {
                        assert(now[at as int].currency == all[j].currency);
                    }
                }
            }
        } else {
            proof {
                assert(built[at as int].total == out@[at as int].total);
                assert(fits_amount(currency_sum(all, built[at as int].currency)));
                assert(has_currency(built, all[i as int].currency));
            }
        }
        i += 1;
    }
    proof {
        let totals = total_views(out@);
        assert forall|j: int| 0 <= j < all.len() implies fits_amount(
            currency_sum(all, (#[trigger] all[j]).currency),
        ) by {
            assert(has_currency(totals, all[j].currency));
            let k = choose|k: int|
                0 <= k < totals.len() && (#[trigger] totals[k]).currency == all[j].currency;
            assert(totals[k].total == out@[k].total);
        }
    }
    Ok(out)
}

/// What the transactions of one day add to the account.
#[derive(Clone, Copy, Debug, PartialEq, Eq, Structural)]
pub struct ChartPoint {
    pub date: Date,
    pub amount: i128,
}

/// The smaller of two integers.
pub open spec fn smaller(a: int, b: int) -> int {
    if a < b {
        a
    } else {
        b
    }
}

/// The larger of two integers.
pub open spec fn larger(a: int, b: int) -> int {
    if a > b {
        a
    } else {
        b
    }
}

/// The smallest of the amounts, or zero where all are above it.
pub open spec fn lowest(amounts: Seq<int>) -> int
    decreases amounts.len(),
{
    if amounts.len() == 0 {
        0
    } else {
        smaller(lowest(amounts.drop_last()), amounts.last())
    }
}

/// The largest of the amounts, or zero where all are below it.
pub open spec fn highest(amounts: Seq<int>) -> int
    decreases amounts.len(),
{
    if amounts.len() == 0 {
        0
    } else {
        larger(highest(amounts.drop_last()), amounts.last())
    }
}

/// The points of a chart of the transactions: one for each run of
/// transactions of the same day that follow one another, carrying what they
/// add to the account.
pub open spec fn points_of(transactions: Seq<TransactionView>) -> Seq<ChartPoint>
    decreases transactions.len(),
{
    if transactions.len() == 0 {
        Seq::empty()
    } else {
        let before = points_of(transactions.drop_last());
        let t = transactions.last();
        if before.len() > 0 && before.last().date == t.date {
            before.update(
                before.len() - 1,
                ChartPoint { date: t.date, amount: (before.last().amount + t.amount) as i128 },
            )
        } else {
            before.push(ChartPoint { date: t.date, amount: t.amount as i128 })
        }
    }
}

/// The span of a chart of the transactions: from the smallest of what they
/// add to the account to the largest, zero always within.
pub fn chart_range(transactions: &[Transaction]) -> (r: (i128, i128))
    ensures
        r.0 == lowest(amounts_of(transaction_views(transactions@))),
        r.1 == highest(amounts_of(transaction_views(transactions@))),
        r.0 <= 0 <= r.1,
{
    let mut low: i128 = 0;
    let mut high: i128 = 0;
    let mut i: usize = 0;
    proof {
        assert(amounts_of(transaction_views(transactions@.take(0))) =~= Seq::empty());
    }
    while i < transactions.len()
        invariant
            i <= transactions.len(),
            low == lowest(amounts_of(transaction_views(transactions@.take(i as int)))),
            high == highest(amounts_of(transaction_views(transactions@.take(i as int)))),
            low <= 0 <= high,
        decreases transactions.len() - i,
    {
        proof {
            let before = amounts_of(transaction_views(transactions@.take(i as int)));
            let next = amounts_of(transaction_views(transactions@.take(i + 1)));
            assert(next =~= before.push(transactions@[i as int]@.amount));
            assert(next.drop_last() =~= before);
        }
        let amount = transactions[i].amount();
        if amount < low {
            low = amount;
        }
        if amount > high {
            high = amount;
        }
        i += 1;
    }
    assert(transactions@.take(transactions.len() as int) =~= transactions@);
    (low, high)
}

/// The points of a chart of the transactions, in order.
pub fn chart_points(transactions: &[Transaction]) -> (r: Vec<ChartPoint>)
    ensures
        r@ == points_of(transaction_views(transactions@)),
{
    let mut out: Vec<ChartPoint> = Vec::new();
    let mut i: usize = 0;
    proof {
        assert(transaction_views(transactions@.take(0)) =~= Seq::empty());
    }
    while i < transactions.len()
        invariant
            i <= transactions.len(),
            out@ == points_of(transaction_views(transactions@.take(i as int))),
            forall|k: int|
                0 <= k < out.len() ==> -(i * 0x8000_0000_0000_0000) <= (#[trigger] out@[k]).amount
                    <= i * 0x8000_0000_0000_0000,
        decreases transactions.len() - i,
    {
        let ghost before = out@;
        proof {
            let seen = transaction_views(transactions@.take(i as int));
            let next = transaction_views(transactions@.take(i + 1));
            assert(next =~= seen.push(transactions@[i as int]@));
            assert(next.drop_last() =~= seen);
        }
        let date = *transactions[i].date();
        let amount = transactions[i].amount();
        let n = out.len();
        if n > 0 && out[n - 1].date == date {
            let merged = ChartPoint { date, amount: out[n - 1].amount + amount };
            out.set(n - 1, merged);
            assert(out@ =~= before.update(n - 1, merged));
        } else {
            out.push(ChartPoint { date, amount });
        }
        i += 1;
    }
    assert(transactions@.take(transactions.len() as int) =~= transactions@);
    out
}

} // verus!
