//! Accounts, and the balance of an account.

use crate::datetime::DateTime;
use crate::money::{checked_amount, fits_amount, lemma_sum_push, sum};
use crate::store::{
    account_by_id, account_other_than, booked_elsewhere, Snapshot, SnapshotView,
};
use crate::transaction::tag::{
    clone_optional_text, has_label, optional_text_view, tags_have_label, TagView,
};
use crate::transaction::{
    transaction_amounts, transaction_views, ReadTransactionOptions, ReadTransactionOptionsView,
    TransactionView,
};
use crate::{Error, RecordId, RecordIdView};
use vstd::prelude::*;

verus! {

/// What is stored of an account: its name, its currency code and the filter
/// that its transaction list falls back on.
#[derive(Debug)]
pub struct Data {
    pub name: String,
    pub currency: String,
    pub filter: ReadTransactionOptions,
}

/// What a `Data` stands for in contracts.
pub ghost struct DataView {
    pub name: Seq<char>,
    pub currency: Seq<char>,
    pub filter: ReadTransactionOptionsView,
}

impl View for Data {
    type V = DataView;

    open spec fn view(&self) -> DataView {
        DataView { name: self.name@, currency: self.currency@, filter: self.filter@ }
    }
}

impl Clone for Data {
    fn clone(&self) -> (r: Self)
        ensures
            r@ == self@,
    {
        Data {
            name: self.name.clone(),
            currency: self.currency.clone(),
            filter: self.filter.clone(),
        }
    }
}

/// A stored account.
#[derive(Debug)]
pub struct Account {
    pub data: Data,
    pub id: RecordId,
}

/// What an `Account` stands for in contracts.
pub ghost struct AccountView {
    pub data: DataView,
    pub id: RecordIdView,
}

impl View for Account {
    type V = AccountView;

    open spec fn view(&self) -> AccountView {
        AccountView { data: self.data@, id: self.id@ }
    }
}

impl Clone for Account {
    fn clone(&self) -> (r: Self)
        ensures
            r@ == self@,
    {
        Account { data: self.data.clone(), id: self.id.clone() }
    }
}

/// The views of a run of accounts, in order.
pub open spec fn account_views(accounts: Seq<Account>) -> Seq<AccountView> {
    accounts.map_values(|a: Account| a@)
}

/// A copy of a run of accounts.
pub fn clone_accounts(accounts: &Vec<Account>) -> (r: Vec<Account>)
    ensures
        account_views(r@) == account_views(accounts@),
{
    let mut out: Vec<Account> = Vec::new();
    let mut i: usize = 0;
    while i < accounts.len()
        invariant
            i <= accounts.len(),
            out.len() == i,
            forall|j: int| 0 <= j < i ==> (#[trigger] out@[j])@ == accounts@[j]@,
        decreases accounts.len() - i,
    {
        out.push(accounts[i].clone());
        i += 1;
    }
    assert(account_views(out@) =~= account_views(accounts@));
    out
}

/// The name of an account beside its reference.
#[derive(Debug)]
pub struct AccountIdentifiers {
    pub name: String,
    pub id: RecordId,
}

/// What is asked for to open an account.
#[derive(Debug)]
pub struct AddAccountOptions {
    pub name: String,
    pub currency: String,
}

impl Account {
    /// The account `name` in `currency` under the reference `id`, with the
    /// filter that narrows nothing down.
    pub fn new(id: RecordId, name: &str, currency: &str) -> (r: Account)
        ensures
            r@.id == id@,
            r@.data.name == name@,
            r@.data.currency == currency@,
            r@.data.filter == ReadTransactionOptions::default_view(),
    {
        Account {
            data: Data {
                name: name.to_owned(),
                currency: currency.to_owned(),
                filter: ReadTransactionOptions::default(),
            },
            id,
        }
    }

    /// The name and the reference of the account.
    pub fn identifiers(&self) -> (r: AccountIdentifiers)
        ensures
            r.name@ == self@.data.name,
            r.id@ == self@.id,
    {
        AccountIdentifiers { name: self.data.name.clone(), id: self.id.clone() }
    }
}

/// Which transactions count towards a balance. Every field is optional and
/// each narrows on its own: only what is later than `period_start`, only what
/// is earlier than `period_end`, only what carries the tag `tag`.
#[derive(Debug)]
pub struct BalanceOptions {
    pub period_start: Option<DateTime>,
    pub period_end: Option<DateTime>,
    pub tag: Option<String>,
}

/// What a `BalanceOptions` stands for in contracts.
pub ghost struct BalanceOptionsView {
    pub period_start: Option<DateTime>,
    pub period_end: Option<DateTime>,
    pub tag: Option<Seq<char>>,
}

impl View for BalanceOptions {
    type V = BalanceOptionsView;

    open spec fn view(&self) -> BalanceOptionsView {
        BalanceOptionsView {
            period_start: self.period_start,
            period_end: self.period_end,
            tag: optional_text_view(self.tag),
        }
    }
}

impl Clone for BalanceOptions {
    fn clone(&self) -> (r: Self)
        ensures
            r@ == self@,
    {
        BalanceOptions {
            period_start: self.period_start,
            period_end: self.period_end,
            tag: clone_optional_text(&self.tag),
        }
    }
}

impl Default for BalanceOptions {
    /// The options under which every transaction counts.
    fn default() -> (r: Self)
        ensures
            r@ == (BalanceOptionsView { period_start: None, period_end: None, tag: None }),
    {
        BalanceOptions { period_start: None, period_end: None, tag: None }
    }
}

/// Whether `date` passes the two optional bounds, neither of which it may
/// touch.
pub open spec fn strictly_between(
    date: DateTime,
    start: Option<DateTime>,
    end: Option<DateTime>,
) -> bool {
    &&& start matches Some(s) ==> s.before(date)
    &&& end matches Some(e) ==> date.before(e)
}

/// Whether the tags pass the optional choice of a label.
pub open spec fn tagged(tags: Seq<TagView>, tag: Option<Seq<char>>) -> bool {
    tag matches Some(label) ==> has_label(tags, label)
}

/// The test that a transaction of `account` counts under `options`.
pub open spec fn counts_towards(account: RecordIdView, options: BalanceOptionsView) -> spec_fn(
    TransactionView,
) -> bool {
    |t: TransactionView|
        t.account == account && strictly_between(t.date, options.period_start, options.period_end)
            && tagged(t.tags, options.tag)
}

/// The balance of `account` under `options`: the sum of the amounts of its
/// transactions that count; zero where none does.
pub open spec fn balance_of(
    transactions: Seq<TransactionView>,
    account: RecordIdView,
    options: BalanceOptionsView,
) -> int {
    sum(transaction_amounts(transactions.filter(counts_towards(account, options))))
}

/// The balance of the account `account_id` under `options`, from the
/// transactions of `snapshot`. An account without a matching transaction, or
/// one that the snapshot does not know, has the balance zero. Fails where the
/// balance cannot be held as an amount, and only there.
pub fn balance(snapshot: &Snapshot, account_id: &RecordId, options: &BalanceOptions) -> (r: Result<
    i64,
    Error,
>)
    ensures
        r == if fits_amount(balance_of(snapshot@.transactions, account_id@, options@)) {
            Ok::<i64, Error>(balance_of(snapshot@.transactions, account_id@, options@) as i64)
        } else {
            Err::<i64, Error>(Error::AmountOutOfRange)
        },
{
    let ghost test = counts_towards(account_id@, options@);
    let transactions = &snapshot.transactions;
    let mut total: i128 = 0;
    let mut i: usize = 0;
    proof {
        reveal(Seq::filter);
        assert(transaction_views(transactions@.take(0)) =~= Seq::empty());
        assert(transaction_amounts(Seq::<TransactionView>::empty()) =~= Seq::empty());
    }
    while i < transactions.len()
        invariant
            i <= transactions.len(),
            test == counts_towards(account_id@, options@),
            total == sum(
                transaction_amounts(transaction_views(transactions@.take(i as int)).filter(test)),
            ),
            i * i64::MIN <= total <= i * i64::MAX,
        decreases transactions.len() - i,
    {
        let t = &transactions[i];
        proof {
            let before = transaction_views(transactions@.take(i as int));
            assert(transaction_views(transactions@.take(i + 1)) =~= before.push(t@));
            before.lemma_filter_push(t@, test);
            if test(t@) {
                assert(transaction_amounts(before.filter(test).push(t@)) =~= transaction_amounts(
                    before.filter(test),
                ).push(t@.amount));
                lemma_sum_push(transaction_amounts(before.filter(test)), t@.amount);
            }
        }
        let after_start = match &options.period_start {
            Some(start) => start.is_before(&t.inner.date),
            None => true,
        };
        let before_end = match &options.period_end {
            Some(end) => t.inner.date.is_before(end),
            None => true,
        };
        let has_tag = match &options.tag {
            Some(label) => tags_have_label(&t.inner.tags, label),
            None => true,
        };
        if t.account.same(account_id) && after_start && before_end && has_tag {
            total = total + (t.inner.amount as i128);
        }
        i += 1;
    }
    assert(transactions@.take(transactions.len() as int) =~= transactions@);
    checked_amount(total)
}

/// The view of an account or of the failure in its place.
pub open spec fn account_result_view(r: Result<Account, Error>) -> Result<AccountView, Error> {
    match r {
        Ok(a) => Ok(a@),
        Err(e) => Err(e),
    }
}

/// The account that `options` ask for under the reference `id`.
pub open spec fn account_from(id: RecordIdView, options: AddAccountOptions) -> AccountView {
    AccountView {
        data: DataView {
            name: options.name@,
            currency: options.currency@,
            filter: ReadTransactionOptions::default_view(),
        },
        id,
    }
}

/// Adds to the snapshot the account that `options` ask for, under the
/// reference `id`, after those it holds.
pub fn create(snapshot: &mut Snapshot, id: RecordId, options: AddAccountOptions) -> (r: Account)
    ensures
        r@ == account_from(id@, options),
        final(snapshot)@ == (SnapshotView {
            accounts: old(snapshot)@.accounts.push(r@),
            ..old(snapshot)@
        }),
{
    let ghost before = snapshot@;
    let account = Account::new(id, options.name.as_str(), options.currency.as_str());
    let copy = account.clone();
    snapshot.accounts.push(account);
    assert(snapshot@.accounts =~= before.accounts.push(copy@));
    copy
}

/// The account `account_id` of the snapshot; `RecordNotFound` where it holds
/// none.
pub fn read(snapshot: &Snapshot, account_id: &RecordId) -> (r: Result<Account, Error>)
    ensures
        account_result_view(r) == match account_by_id(snapshot@.accounts, account_id@) {
            Some(a) => Ok::<AccountView, Error>(a),
            None => Err::<AccountView, Error>(Error::RecordNotFound),
        },
{
    match snapshot.get_account(account_id) {
        Some(account) => Ok(account),
        None => Err(Error::RecordNotFound),
    }
}

/// `account` in place of every account that carries its reference.
pub open spec fn account_in_place(account: AccountView) -> spec_fn(AccountView) -> AccountView {
    |a: AccountView|
        if a.id == account.id {
            account
        } else {
            a
        }
}

/// Puts `account` in place of the accounts of the snapshot that carry its
/// reference. A snapshot without such an account stays as it is.
pub fn update(snapshot: &mut Snapshot, account: Account)
    ensures
        final(snapshot)@ == (SnapshotView {
            accounts: old(snapshot)@.accounts.map_values(account_in_place(account@)),
            ..old(snapshot)@
        }),
{
    let ghost before = snapshot@;
    let mut i: usize = 0;
    while i < snapshot.accounts.len()
        invariant
            i <= snapshot.accounts.len(),
            snapshot.accounts.len() == old(snapshot).accounts.len(),
            snapshot.budgets == old(snapshot).budgets,
            snapshot.partitions == old(snapshot).partitions,
            snapshot.categories == old(snapshot).categories,
            snapshot.allocations == old(snapshot).allocations,
            snapshot.transactions == old(snapshot).transactions,
            before == old(snapshot)@,
            forall|j: int|
                0 <= j < i ==> (#[trigger] snapshot.accounts@[j])@ == account_in_place(account@)(
                    before.accounts[j],
                ),
            forall|j: int|
                i <= j < snapshot.accounts.len() ==> (#[trigger] snapshot.accounts@[j])@
                    == before.accounts[j],
        decreases snapshot.accounts.len() - i,
    {
        if snapshot.accounts[i].id.same(&account.id) {
            snapshot.accounts.set(i, account.clone());
        }
        i += 1;
    }
    assert(snapshot@.accounts =~= before.accounts.map_values(account_in_place(account@)));
}

/// The snapshot without the account `account` and without the transactions
/// booked on it.
pub open spec fn without_account(snapshot: SnapshotView, account: RecordIdView) -> SnapshotView {
    SnapshotView {
        accounts: snapshot.accounts.filter(account_other_than(account)),
        transactions: snapshot.transactions.filter(booked_elsewhere(account)),
        ..snapshot
    }
}

/// Takes the account `account_id` out of the snapshot, and with it the
/// transactions booked on it.
pub fn delete(snapshot: &mut Snapshot, account_id: &RecordId)
    ensures
        final(snapshot)@ == without_account(old(snapshot)@, account_id@),
{
    snapshot.remove_account(account_id);
    snapshot.remove_transactions_of(account_id);
}

/// Deleting an account leaves no transaction without its account.
pub proof fn lemma_delete_keeps_references(snapshot: SnapshotView, account: RecordIdView)
    requires
        snapshot.references_resolve(),
    ensures
        without_account(snapshot, account).references_resolve(),
{
    let after = without_account(snapshot, account);
    crate::seqs::lemma_filter_membership(snapshot.accounts, account_other_than(account));
    crate::seqs::lemma_filter_membership(snapshot.transactions, booked_elsewhere(account));
    assert forall|i: int| 0 <= i < after.transactions.len() implies after.has_account(
        (#[trigger] after.transactions[i]).account,
    ) by {
        let t = after.transactions[i];
        assert(after.transactions.contains(t));
        assert(snapshot.transactions.contains(t));
        let k = choose|k: int|
            0 <= k < snapshot.transactions.len() && snapshot.transactions[k] == t;
        assert(snapshot.has_account(snapshot.transactions[k].account));
        let j = choose|j: int|
            0 <= j < snapshot.accounts.len() && (#[trigger] snapshot.accounts[j]).id == t.account;
        let a = snapshot.accounts[j];
        assert(snapshot.accounts.contains(a));
        assert(after.accounts.contains(a));
        let m = choose|m: int| 0 <= m < after.accounts.len() && after.accounts[m] == a;
        assert(after.accounts[m].id == t.account);
    }
    assert forall|i: int| 0 <= i < after.partitions.len() implies after.has_budget(
        (#[trigger] after.partitions[i]).budget,
    ) by {
        assert(snapshot.has_budget(snapshot.partitions[i].budget));
        let j = choose|j: int|
            0 <= j < snapshot.budgets.len() && (#[trigger] snapshot.budgets[j]).id
                == snapshot.partitions[i].budget;
        assert(after.budgets[j].id == after.partitions[i].budget);
    }
    assert forall|i: int| 0 <= i < after.allocations.len() implies after.has_partition(
        (#[trigger] after.allocations[i]).partition,
    ) by {
        assert(snapshot.has_partition(snapshot.allocations[i].partition));
        let j = choose|j: int|
            0 <= j < snapshot.partitions.len() && (#[trigger] snapshot.partitions[j]).id
                == snapshot.allocations[i].partition;
        assert(after.partitions[j].id == after.allocations[i].partition);
    }
}

/// The name and the reference of an account.
pub open spec fn identified() -> spec_fn(AccountView) -> (Seq<char>, RecordIdView) {
    |a: AccountView| (a.data.name, a.id)
}

/// The names and the references of a run of identifiers, in order.
pub open spec fn identifier_views(ids: Seq<AccountIdentifiers>) -> Seq<(Seq<char>, RecordIdView)> {
    ids.map_values(|i: AccountIdentifiers| (i.name@, i.id@))
}

/// The name and the reference of every account of the snapshot, in the
/// order stored.
pub fn list_accounts(snapshot: &Snapshot) -> (r: Vec<AccountIdentifiers>)
    ensures
        identifier_views(r@) == snapshot@.accounts.map_values(identified()),
{
    let mut out: Vec<AccountIdentifiers> = Vec::new();
    let mut i: usize = 0;
    while i < snapshot.accounts.len()
        invariant
            i <= snapshot.accounts.len(),
            out.len() == i,
            forall|j: int|
                0 <= j < i ==> (#[trigger] out@[j]).name@ == snapshot.accounts@[j].data.name@
                    && out@[j].id@ == snapshot.accounts@[j].id@,
        decreases snapshot.accounts.len() - i,
    {
        out.push(snapshot.accounts[i].identifiers());
        i += 1;
    }
    assert(identifier_views(out@) =~= snapshot@.accounts.map_values(identified()));
    out
}

/// A copy of every account of the snapshot, in the order stored.
pub fn list_accounts_with_details(snapshot: &Snapshot) -> (r: Vec<Account>)
    ensures
        account_views(r@) == snapshot@.accounts,
{
    clone_accounts(&snapshot.accounts)
}

/// The currency code of the account `account_id`; `RecordNotFound` where the
/// snapshot holds no such account.
pub fn get_currency(snapshot: &Snapshot, account_id: &RecordId) -> (r: Result<String, Error>)
    ensures
        match account_by_id(snapshot@.accounts, account_id@) {
            Some(a) => r matches Ok(c) && c@ == a.data.currency,
            None => r == Err::<String, Error>(Error::RecordNotFound),
        },
{
    match snapshot.get_account(account_id) {
        Some(account) => Ok(account.data.currency),
        None => Err(Error::RecordNotFound),
    }
}

} // verus!
