//! A snapshot of the stored records, as the reports read it: every report is
//! a function of one snapshot, so nothing can change between two reads of the
//! same report.

use crate::account::{account_views, Account, AccountView};
use crate::budget::allocation::{allocation_views, Allocation, AllocationView};
use crate::budget::partition::{partition_views, Partition, PartitionView};
use crate::budget::{budget_views, Budget, BudgetView};
use crate::transaction::category::{CategoryView, CategoryWithId};
use crate::transaction::{transaction_views, TransactionView, TransactionWithId};
use crate::datetime::DateTime;
use crate::seqs::{lemma_filter_first, lemma_filter_membership, lemma_filter_none};
use crate::{RecordId, RecordIdView};
use vstd::prelude::*;

verus! {

/// The records of a store at one moment.
#[derive(Debug)]
pub struct Snapshot {
    pub accounts: Vec<Account>,
    pub budgets: Vec<Budget>,
    pub partitions: Vec<Partition>,
    pub categories: Vec<CategoryWithId>,
    pub allocations: Vec<Allocation>,
    pub transactions: Vec<TransactionWithId>,
}

/// What a `Snapshot` stands for in contracts.
pub ghost struct SnapshotView {
    pub accounts: Seq<AccountView>,
    pub budgets: Seq<BudgetView>,
    pub partitions: Seq<PartitionView>,
    pub categories: Seq<CategoryView>,
    pub allocations: Seq<AllocationView>,
    pub transactions: Seq<TransactionView>,
}

/// The views of a run of categories, in order.
pub open spec fn category_views(categories: Seq<CategoryWithId>) -> Seq<CategoryView> {
    categories.map_values(|c: CategoryWithId| c@)
}

impl View for Snapshot {
    type V = SnapshotView;

    open spec fn view(&self) -> SnapshotView {
        SnapshotView {
            accounts: account_views(self.accounts@),
            budgets: budget_views(self.budgets@),
            partitions: partition_views(self.partitions@),
            categories: category_views(self.categories@),
            allocations: allocation_views(self.allocations@),
            transactions: transaction_views(self.transactions@),
        }
    }
}

impl Snapshot {
    /// The snapshot of an empty store.
    pub fn new() -> (r: Snapshot)
        ensures
            r@.accounts.len() == 0,
            r@.budgets.len() == 0,
            r@.partitions.len() == 0,
            r@.categories.len() == 0,
            r@.allocations.len() == 0,
            r@.transactions.len() == 0,
    {
        Snapshot {
            accounts: Vec::new(),
            budgets: Vec::new(),
            partitions: Vec::new(),
            categories: Vec::new(),
            allocations: Vec::new(),
            transactions: Vec::new(),
        }
    }
}

/// Whether `id` is one of `ids`.
pub fn contains_id(ids: &Vec<RecordId>, id: &RecordId) -> (r: bool)
    ensures
        r == id_views(ids@).contains(id@),
{
    let mut i: usize = 0;
    while i < ids.len()
        invariant
            i <= ids.len(),
            forall|j: int| 0 <= j < i ==> id_views(ids@)[j] != id@,
        decreases ids.len() - i,
    {
        if ids[i].same(id) {
            assert(id_views(ids@)[i as int] == id@);
            return true;
        }
        i += 1;
    }
    false
}

/// The views of a run of references, in order.
pub open spec fn id_views(ids: Seq<RecordId>) -> Seq<RecordIdView> {
    ids.map_values(|id: RecordId| id@)
}

/// The references of a run of accounts, in order.
pub open spec fn account_ids(accounts: Seq<AccountView>) -> Seq<RecordIdView> {
    accounts.map_values(|a: AccountView| a.id)
}

/// The references of a run of partitions, in order.
pub open spec fn partition_ids(partitions: Seq<PartitionView>) -> Seq<RecordIdView> {
    partitions.map_values(|p: PartitionView| p.id)
}

/// The references of the accounts of `accounts`, in order.
pub fn ids_of_accounts(accounts: &Vec<Account>) -> (r: Vec<RecordId>)
    ensures
        id_views(r@) == account_ids(account_views(accounts@)),
{
    let mut out: Vec<RecordId> = Vec::new();
    let mut i: usize = 0;
    while i < accounts.len()
        invariant
            i <= accounts.len(),
            out.len() == i,
            forall|j: int| 0 <= j < i ==> (#[trigger] out@[j])@ == accounts@[j].id@,
        decreases accounts.len() - i,
    {
        out.push(accounts[i].id.clone());
        i += 1;
    }
    assert(id_views(out@) =~= account_ids(account_views(accounts@)));
    out
}

/// The references of the partitions of `partitions`, in order.
pub fn ids_of_partitions(partitions: &Vec<Partition>) -> (r: Vec<RecordId>)
    ensures
        id_views(r@) == partition_ids(partition_views(partitions@)),
{
    let mut out: Vec<RecordId> = Vec::new();
    let mut i: usize = 0;
    while i < partitions.len()
        invariant
            i <= partitions.len(),
            out.len() == i,
            forall|j: int| 0 <= j < i ==> (#[trigger] out@[j])@ == partitions@[j].id@,
        decreases partitions.len() - i,
    {
        out.push(partitions[i].id.clone());
        i += 1;
    }
    assert(id_views(out@) =~= partition_ids(partition_views(partitions@)));
    out
}

/// The test that a budget carries the reference `id`.
pub open spec fn budget_has_id(id: RecordIdView) -> spec_fn(BudgetView) -> bool {
    |b: BudgetView| b.id == id
}

/// The test that an account carries the reference `id`.
pub open spec fn account_has_id(id: RecordIdView) -> spec_fn(AccountView) -> bool {
    |a: AccountView| a.id == id
}

/// The test that a partition belongs to the budget `budget`.
pub open spec fn owned_by(budget: RecordIdView) -> spec_fn(PartitionView) -> bool {
    |p: PartitionView| p.budget == budget
}

/// Whether `date` lies in the window from `start` to `end`, both included.
pub open spec fn within(date: DateTime, start: DateTime, end: DateTime) -> bool {
    start.at_or_before(date) && date.at_or_before(end)
}

/// The test that a transaction is booked on one of `accounts` at a date from
/// `start` to `end`, both included.
pub open spec fn booked_within(
    accounts: Seq<RecordIdView>,
    start: DateTime,
    end: DateTime,
) -> spec_fn(TransactionView) -> bool {
    |t: TransactionView| accounts.contains(t.account) && within(t.date, start, end)
}

/// The test that a transaction is booked on one of `accounts` under
/// `category` at a date from `start` to `end`, both included.
pub open spec fn booked_within_under(
    accounts: Seq<RecordIdView>,
    category: RecordIdView,
    start: DateTime,
    end: DateTime,
) -> spec_fn(TransactionView) -> bool {
    |t: TransactionView|
        accounts.contains(t.account) && t.category == category && within(t.date, start, end)
}

/// The first of `budgets` that carries `id`, if any.
pub open spec fn budget_by_id(budgets: Seq<BudgetView>, id: RecordIdView) -> Option<BudgetView> {
    let found = budgets.filter(budget_has_id(id));
    if found.len() == 0 {
        None
    } else {
        Some(found.first())
    }
}

/// The first of `accounts` that carries `id`, if any.
pub open spec fn account_by_id(accounts: Seq<AccountView>, id: RecordIdView) -> Option<
    AccountView,
> {
    let found = accounts.filter(account_has_id(id));
    if found.len() == 0 {
        None
    } else {
        Some(found.first())
    }
}

/// The view of an optional budget.
pub open spec fn optional_budget_view(budget: Option<Budget>) -> Option<BudgetView> {
    match budget {
        Some(b) => Some(b@),
        None => None,
    }
}

/// The view of an optional account.
pub open spec fn optional_account_view(account: Option<Account>) -> Option<AccountView> {
    match account {
        Some(a) => Some(a@),
        None => None,
    }
}

impl Snapshot {
    /// The budget with the reference `id`, if the snapshot holds one.
    pub fn get_budget(&self, id: &RecordId) -> (r: Option<Budget>)
        ensures
            optional_budget_view(r) == budget_by_id(self@.budgets, id@),
    {
        let ghost all = budget_views(self.budgets@);
        let mut i: usize = 0;
        while i < self.budgets.len()
            invariant
                i <= self.budgets.len(),
                all == budget_views(self.budgets@),
                forall|j: int| 0 <= j < i ==> !budget_has_id(id@)(#[trigger] all[j]),
            decreases self.budgets.len() - i,
        {
            if self.budgets[i].id.same(id) {
                proof {
                    lemma_filter_first(all, budget_has_id(id@), i as int);
                }
                return Some(self.budgets[i].clone());
            }
            i += 1;
        }
        proof {
            lemma_filter_none(all, budget_has_id(id@));
        }
        None
    }

    /// The account with the reference `id`, if the snapshot holds one.
    pub fn get_account(&self, id: &RecordId) -> (r: Option<Account>)
        ensures
            optional_account_view(r) == account_by_id(self@.accounts, id@),
    {
        let ghost all = account_views(self.accounts@);
        let mut i: usize = 0;
        while i < self.accounts.len()
            invariant
                i <= self.accounts.len(),
                all == account_views(self.accounts@),
                forall|j: int| 0 <= j < i ==> !account_has_id(id@)(#[trigger] all[j]),
            decreases self.accounts.len() - i,
        {
            if self.accounts[i].id.same(id) {
                proof {
                    lemma_filter_first(all, account_has_id(id@), i as int);
                }
                return Some(self.accounts[i].clone());
            }
            i += 1;
        }
        proof {
            lemma_filter_none(all, account_has_id(id@));
        }
        None
    }

    /// The partitions of the budget `budget`, in the order stored.
    pub fn list_partitions(&self, budget: &RecordId) -> (r: Vec<Partition>)
        ensures
            partition_views(r@) == self@.partitions.filter(owned_by(budget@)),
    {
        let mut out: Vec<Partition> = Vec::new();
        let mut i: usize = 0;
        proof {
            reveal(Seq::filter);
            assert(partition_views(self.partitions@.take(0)) =~= Seq::empty());
            assert(partition_views(out@) =~= Seq::empty());
        }
        while i < self.partitions.len()
            invariant
                i <= self.partitions.len(),
                partition_views(out@) == partition_views(self.partitions@.take(i as int)).filter(
                    owned_by(budget@),
                ),
            decreases self.partitions.len() - i,
        {
            let ghost before = partition_views(self.partitions@.take(i as int));
            let ghost kept = partition_views(out@);
            proof {
                assert(partition_views(self.partitions@.take(i + 1)) =~= before.push(
                    self.partitions@[i as int]@,
                ));
                before.lemma_filter_push(self.partitions@[i as int]@, owned_by(budget@));
            }
            if self.partitions[i].budget.same(budget) {
                let copy = self.partitions[i].clone();
                out.push(copy);
                assert(partition_views(out@) =~= kept.push(self.partitions@[i as int]@));
            }
            i += 1;
        }
        assert(self.partitions@.take(self.partitions.len() as int) =~= self.partitions@);
        out
    }

    /// The transactions booked on one of `accounts` at a date from `start` to
    /// `end`, both ends included, in the order stored.
    pub fn list_transactions(&self, accounts: &Vec<RecordId>, start: DateTime, end: DateTime) -> (r:
        Vec<TransactionWithId>)
        ensures
            transaction_views(r@) == self@.transactions.filter(
                booked_within(id_views(accounts@), start, end),
            ),
    {
        let ghost test = booked_within(id_views(accounts@), start, end);
        let mut out: Vec<TransactionWithId> = Vec::new();
        let mut i: usize = 0;
        proof {
            reveal(Seq::filter);
            assert(transaction_views(self.transactions@.take(0)) =~= Seq::empty());
            assert(transaction_views(out@) =~= Seq::empty());
        }
        while i < self.transactions.len()
            invariant
                i <= self.transactions.len(),
                test == booked_within(id_views(accounts@), start, end),
                transaction_views(out@) == transaction_views(
                    self.transactions@.take(i as int),
                ).filter(test),
            decreases self.transactions.len() - i,
        {
            let ghost before = transaction_views(self.transactions@.take(i as int));
            let ghost kept = transaction_views(out@);
            proof {
                assert(transaction_views(self.transactions@.take(i + 1)) =~= before.push(
                    self.transactions@[i as int]@,
                ));
                before.lemma_filter_push(self.transactions@[i as int]@, test);
            }
            let t = &self.transactions[i];
            if contains_id(accounts, &t.account) && start.is_at_or_before(&t.inner.date)
                && t.inner.date.is_at_or_before(&end) {
                let copy = t.clone();
                out.push(copy);
                assert(transaction_views(out@) =~= kept.push(self.transactions@[i as int]@));
            }
            i += 1;
        }
        assert(self.transactions@.take(self.transactions.len() as int) =~= self.transactions@);
        out
    }

    /// The transactions booked on one of `accounts` under `category` at a
    /// date from `start` to `end`, both ends included, in the order stored.
    pub fn list_transactions_by_category(
        &self,
        accounts: &Vec<RecordId>,
        category: &RecordId,
        start: DateTime,
        end: DateTime,
    ) -> (r: Vec<TransactionWithId>)
        ensures
            transaction_views(r@) == self@.transactions.filter(
                booked_within_under(id_views(accounts@), category@, start, end),
            ),
    {
        let ghost test = booked_within_under(id_views(accounts@), category@, start, end);
        let mut out: Vec<TransactionWithId> = Vec::new();
        let mut i: usize = 0;
        proof {
            reveal(Seq::filter);
            assert(transaction_views(self.transactions@.take(0)) =~= Seq::empty());
            assert(transaction_views(out@) =~= Seq::empty());
        }
        while i < self.transactions.len()
            invariant
                i <= self.transactions.len(),
                test == booked_within_under(id_views(accounts@), category@, start, end),
                transaction_views(out@) == transaction_views(
                    self.transactions@.take(i as int),
                ).filter(test),
            decreases self.transactions.len() - i,
        {
            let ghost before = transaction_views(self.transactions@.take(i as int));
            let ghost kept = transaction_views(out@);
            proof {
                assert(transaction_views(self.transactions@.take(i + 1)) =~= before.push(
                    self.transactions@[i as int]@,
                ));
                before.lemma_filter_push(self.transactions@[i as int]@, test);
            }
            let t = &self.transactions[i];
            if contains_id(accounts, &t.account) && t.category.same(category)
                && start.is_at_or_before(&t.inner.date) && t.inner.date.is_at_or_before(&end) {
                let copy = t.clone();
                out.push(copy);
                assert(transaction_views(out@) =~= kept.push(self.transactions@[i as int]@));
            }
            i += 1;
        }
        assert(self.transactions@.take(self.transactions.len() as int) =~= self.transactions@);
        out
    }
}

/// A window holds both its ends.
pub proof fn lemma_window_holds_its_ends(start: DateTime, end: DateTime)
    requires
        start.at_or_before(end),
    ensures
        within(start, start, end),
        within(end, start, end),
{
}

/// A transaction booked on one of the accounts at a date within the window,
/// the two ends included, is among those listed; and every transaction listed
/// is booked on one of the accounts at a date within the window.
pub proof fn lemma_listing_is_exact(
    transactions: Seq<TransactionView>,
    accounts: Seq<RecordIdView>,
    start: DateTime,
    end: DateTime,
)
    ensures
        forall|i: int|
            0 <= i < transactions.len() && accounts.contains((#[trigger] transactions[i]).account)
                && within(transactions[i].date, start, end) ==> transactions.filter(
                booked_within(accounts, start, end),
            ).contains(transactions[i]),
        forall|k: int|
            0 <= k < transactions.filter(booked_within(accounts, start, end)).len() ==> {
                let t = #[trigger] transactions.filter(booked_within(accounts, start, end))[k];
                &&& accounts.contains(t.account)
                &&& within(t.date, start, end)
                &&& transactions.contains(t)
            },
{
    let test = booked_within(accounts, start, end);
    assert forall|i: int|
        0 <= i < transactions.len() && accounts.contains((#[trigger] transactions[i]).account)
            && within(transactions[i].date, start, end) implies transactions.filter(test).contains(
        transactions[i],
    ) by {
        transactions.lemma_filter_contains(test, i);
    }
    assert forall|k: int| 0 <= k < transactions.filter(test).len() implies {
        let t = #[trigger] transactions.filter(test)[k];
        &&& accounts.contains(t.account)
        &&& within(t.date, start, end)
        &&& transactions.contains(t)
    } by {
        crate::seqs::lemma_filter_kept(transactions, test, k);
    }
}

/// A transaction dated at the very end of the window and booked on one of
/// the accounts is among those listed.
pub proof fn lemma_transaction_at_the_end_is_listed(
    transactions: Seq<TransactionView>,
    accounts: Seq<RecordIdView>,
    start: DateTime,
    end: DateTime,
    i: int,
)
    requires
        0 <= i < transactions.len(),
        start.at_or_before(end),
        transactions[i].date == end,
        accounts.contains(transactions[i].account),
    ensures
        transactions.filter(booked_within(accounts, start, end)).contains(transactions[i]),
{
    transactions.lemma_filter_contains(booked_within(accounts, start, end), i);
}

/// The reference of a transaction.
pub open spec fn reference_of() -> spec_fn(TransactionView) -> RecordIdView {
    |t: TransactionView| t.id
}

/// Whether no two transactions of the run carry the same reference.
pub open spec fn references_differ(transactions: Seq<TransactionView>) -> bool {
    crate::seqs::apart(transactions, reference_of())
}

/// The transactions listed under a category are exactly those of the
/// snapshot that are booked on one of the accounts under that category at a
/// date within the window, the two ends included; and where no two
/// transactions of the snapshot share a reference, none is listed twice.
pub proof fn lemma_listing_by_category_is_exact(
    transactions: Seq<TransactionView>,
    accounts: Seq<RecordIdView>,
    category: RecordIdView,
    start: DateTime,
    end: DateTime,
)
    ensures
        forall|i: int|
            0 <= i < transactions.len() && accounts.contains((#[trigger] transactions[i]).account)
                && transactions[i].category == category && within(transactions[i].date, start, end)
                ==> transactions.filter(
                booked_within_under(accounts, category, start, end),
            ).contains(transactions[i]),
        forall|k: int|
            0 <= k < transactions.filter(booked_within_under(accounts, category, start, end)).len()
                ==> {
                let t = #[trigger] transactions.filter(
                    booked_within_under(accounts, category, start, end),
                )[k];
                &&& accounts.contains(t.account)
                &&& t.category == category
                &&& within(t.date, start, end)
                &&& transactions.contains(t)
            },
        references_differ(transactions) ==> references_differ(
            transactions.filter(booked_within_under(accounts, category, start, end)),
        ),
{
    let test = booked_within_under(accounts, category, start, end);
    assert forall|i: int|
        0 <= i < transactions.len() && accounts.contains((#[trigger] transactions[i]).account)
            && transactions[i].category == category && within(
            transactions[i].date,
            start,
            end,
        ) implies transactions.filter(test).contains(transactions[i]) by {
        transactions.lemma_filter_contains(test, i);
    }
    assert forall|k: int| 0 <= k < transactions.filter(test).len() implies {
        let t = #[trigger] transactions.filter(test)[k];
        &&& accounts.contains(t.account)
        &&& t.category == category
        &&& within(t.date, start, end)
        &&& transactions.contains(t)
    } by {
        crate::seqs::lemma_filter_kept(transactions, test, k);
    }
    if references_differ(transactions) {
        crate::seqs::lemma_filter_keeps_apart(transactions, test, reference_of());
    }
}

/// The test that a budget does not carry the reference `id`.
pub open spec fn budget_other_than(id: RecordIdView) -> spec_fn(BudgetView) -> bool {
    |b: BudgetView| b.id != id
}

/// The test that an account does not carry the reference `id`.
pub open spec fn account_other_than(id: RecordIdView) -> spec_fn(AccountView) -> bool {
    |a: AccountView| a.id != id
}

/// The test that a partition carries none of the references `ids`.
pub open spec fn partition_not_among(ids: Seq<RecordIdView>) -> spec_fn(PartitionView) -> bool {
    |p: PartitionView| !ids.contains(p.id)
}

/// The test that an allocation belongs to none of `partitions`.
pub open spec fn allocated_outside(partitions: Seq<RecordIdView>) -> spec_fn(AllocationView) -> bool {
    |a: AllocationView| !partitions.contains(a.partition)
}

/// The test that an allocation belongs to one of `partitions`.
pub open spec fn allocated_within(partitions: Seq<RecordIdView>) -> spec_fn(AllocationView) -> bool {
    |a: AllocationView| partitions.contains(a.partition)
}

/// The test that an account carries one of the references `ids`.
pub open spec fn account_among(ids: Seq<RecordIdView>) -> spec_fn(AccountView) -> bool {
    |a: AccountView| ids.contains(a.id)
}

/// The test that a transaction is not booked on `account`.
pub open spec fn booked_elsewhere(account: RecordIdView) -> spec_fn(TransactionView) -> bool {
    |t: TransactionView| t.account != account
}

impl Snapshot {
    /// The allocations of `partitions`, in the order stored.
    pub fn list_allocations(&self, partitions: &Vec<RecordId>) -> (r: Vec<Allocation>)
        ensures
            allocation_views(r@) == self@.allocations.filter(
                allocated_within(id_views(partitions@)),
            ),
    {
        let ghost test = allocated_within(id_views(partitions@));
        let mut out: Vec<Allocation> = Vec::new();
        let mut i: usize = 0;
        proof {
            reveal(Seq::filter);
            assert(allocation_views(self.allocations@.take(0)) =~= Seq::empty());
            assert(allocation_views(out@) =~= Seq::empty());
        }
        while i < self.allocations.len()
            invariant
                i <= self.allocations.len(),
                test == allocated_within(id_views(partitions@)),
                allocation_views(out@) == allocation_views(self.allocations@.take(i as int)).filter(
                    test,
                ),
            decreases self.allocations.len() - i,
        {
            let ghost before = allocation_views(self.allocations@.take(i as int));
            let ghost kept = allocation_views(out@);
            proof {
                assert(allocation_views(self.allocations@.take(i + 1)) =~= before.push(
                    self.allocations@[i as int]@,
                ));
                before.lemma_filter_push(self.allocations@[i as int]@, test);
            }
            if contains_id(partitions, &self.allocations[i].partition) {
                let copy = self.allocations[i].clone();
                out.push(copy);
                assert(allocation_views(out@) =~= kept.push(self.allocations@[i as int]@));
            }
            i += 1;
        }
        assert(self.allocations@.take(self.allocations.len() as int) =~= self.allocations@);
        out
    }

    /// The accounts that carry one of `ids`, in the order stored.
    pub fn list_accounts_among(&self, ids: &Vec<RecordId>) -> (r: Vec<Account>)
        ensures
            account_views(r@) == self@.accounts.filter(account_among(id_views(ids@))),
    {
        let ghost test = account_among(id_views(ids@));
        let mut out: Vec<Account> = Vec::new();
        let mut i: usize = 0;
        proof {
            reveal(Seq::filter);
            assert(account_views(self.accounts@.take(0)) =~= Seq::empty());
            assert(account_views(out@) =~= Seq::empty());
        }
        while i < self.accounts.len()
            invariant
                i <= self.accounts.len(),
                test == account_among(id_views(ids@)),
                account_views(out@) == account_views(self.accounts@.take(i as int)).filter(test),
            decreases self.accounts.len() - i,
        {
            let ghost before = account_views(self.accounts@.take(i as int));
            let ghost kept = account_views(out@);
            proof {
                assert(account_views(self.accounts@.take(i + 1)) =~= before.push(
                    self.accounts@[i as int]@,
                ));
                before.lemma_filter_push(self.accounts@[i as int]@, test);
            }
            if contains_id(ids, &self.accounts[i].id) {
                let copy = self.accounts[i].clone();
                out.push(copy);
                assert(account_views(out@) =~= kept.push(self.accounts@[i as int]@));
            }
            i += 1;
        }
        assert(self.accounts@.take(self.accounts.len() as int) =~= self.accounts@);
        out
    }

    /// Takes out every allocation of `partitions`; the others keep their order.
    pub fn remove_allocations_of(&mut self, partitions: &Vec<RecordId>)
        ensures
            final(self)@ == (SnapshotView {
                allocations: old(self)@.allocations.filter(
                    allocated_outside(id_views(partitions@)),
                ),
                ..old(self)@
            }),
    {
        let ghost test = allocated_outside(id_views(partitions@));
        let ghost given = self@.allocations;
        let mut out: Vec<Allocation> = Vec::new();
        let mut i: usize = 0;
        proof {
            reveal(Seq::filter);
            assert(allocation_views(self.allocations@.take(0)) =~= Seq::empty());
            assert(allocation_views(out@) =~= Seq::empty());
        }
        while i < self.allocations.len()
            invariant
                i <= self.allocations.len(),
                *self == *old(self),
                test == allocated_outside(id_views(partitions@)),
                allocation_views(out@) == allocation_views(self.allocations@.take(i as int)).filter(
                    test,
                ),
            decreases self.allocations.len() - i,
        {
            let ghost before = allocation_views(self.allocations@.take(i as int));
            let ghost kept = allocation_views(out@);
            proof {
                assert(allocation_views(self.allocations@.take(i + 1)) =~= before.push(
                    self.allocations@[i as int]@,
                ));
                before.lemma_filter_push(self.allocations@[i as int]@, test);
            }
            if !contains_id(partitions, &self.allocations[i].partition) {
                let copy = self.allocations[i].clone();
                out.push(copy);
                assert(allocation_views(out@) =~= kept.push(self.allocations@[i as int]@));
            }
            i += 1;
        }
        assert(self.allocations@.take(self.allocations.len() as int) =~= self.allocations@);
        self.allocations = out;
    }

    /// Takes out every partition that carries one of `ids`; the others keep
    /// their order.
    pub fn remove_partitions(&mut self, ids: &Vec<RecordId>)
        ensures
            final(self)@ == (SnapshotView {
                partitions: old(self)@.partitions.filter(partition_not_among(id_views(ids@))),
                ..old(self)@
            }),
    {
        let ghost test = partition_not_among(id_views(ids@));
        let mut out: Vec<Partition> = Vec::new();
        let mut i: usize = 0;
        proof {
            reveal(Seq::filter);
            assert(partition_views(self.partitions@.take(0)) =~= Seq::empty());
            assert(partition_views(out@) =~= Seq::empty());
        }
        while i < self.partitions.len()
            invariant
                i <= self.partitions.len(),
                *self == *old(self),
                test == partition_not_among(id_views(ids@)),
                partition_views(out@) == partition_views(self.partitions@.take(i as int)).filter(
                    test,
                ),
            decreases self.partitions.len() - i,
        {
            let ghost before = partition_views(self.partitions@.take(i as int));
            let ghost kept = partition_views(out@);
            proof {
                assert(partition_views(self.partitions@.take(i + 1)) =~= before.push(
                    self.partitions@[i as int]@,
                ));
                before.lemma_filter_push(self.partitions@[i as int]@, test);
            }
            if !contains_id(ids, &self.partitions[i].id) {
                let copy = self.partitions[i].clone();
                out.push(copy);
                assert(partition_views(out@) =~= kept.push(self.partitions@[i as int]@));
            }
            i += 1;
        }
        assert(self.partitions@.take(self.partitions.len() as int) =~= self.partitions@);
        self.partitions = out;
    }

    /// Takes out every budget that carries `id`; the others keep their order.
    pub fn remove_budget(&mut self, id: &RecordId)
        ensures
            final(self)@ == (SnapshotView {
                budgets: old(self)@.budgets.filter(budget_other_than(id@)),
                ..old(self)@
            }),
    {
        let ghost test = budget_other_than(id@);
        let mut out: Vec<Budget> = Vec::new();
        let mut i: usize = 0;
        proof {
            reveal(Seq::filter);
            assert(budget_views(self.budgets@.take(0)) =~= Seq::empty());
            assert(budget_views(out@) =~= Seq::empty());
        }
        while i < self.budgets.len()
            invariant
                i <= self.budgets.len(),
                *self == *old(self),
                test == budget_other_than(id@),
                budget_views(out@) == budget_views(self.budgets@.take(i as int)).filter(test),
            decreases self.budgets.len() - i,
        {
            let ghost before = budget_views(self.budgets@.take(i as int));
            let ghost kept = budget_views(out@);
            proof {
                assert(budget_views(self.budgets@.take(i + 1)) =~= before.push(
                    self.budgets@[i as int]@,
                ));
                before.lemma_filter_push(self.budgets@[i as int]@, test);
            }
            if !self.budgets[i].id.same(id) {
                let copy = self.budgets[i].clone();
                out.push(copy);
                assert(budget_views(out@) =~= kept.push(self.budgets@[i as int]@));
            }
            i += 1;
        }
        assert(self.budgets@.take(self.budgets.len() as int) =~= self.budgets@);
        self.budgets = out;
    }

    /// Takes out every account that carries `id`; the others keep their order.
    pub fn remove_account(&mut self, id: &RecordId)
        ensures
            final(self)@ == (SnapshotView {
                accounts: old(self)@.accounts.filter(account_other_than(id@)),
                ..old(self)@
            }),
    {
        let ghost test = account_other_than(id@);
        let mut out: Vec<Account> = Vec::new();
        let mut i: usize = 0;
        proof {
            reveal(Seq::filter);
            assert(account_views(self.accounts@.take(0)) =~= Seq::empty());
            assert(account_views(out@) =~= Seq::empty());
        }
        while i < self.accounts.len()
            invariant
                i <= self.accounts.len(),
                *self == *old(self),
                test == account_other_than(id@),
                account_views(out@) == account_views(self.accounts@.take(i as int)).filter(test),
            decreases self.accounts.len() - i,
        {
            let ghost before = account_views(self.accounts@.take(i as int));
            let ghost kept = account_views(out@);
            proof {
                assert(account_views(self.accounts@.take(i + 1)) =~= before.push(
                    self.accounts@[i as int]@,
                ));
                before.lemma_filter_push(self.accounts@[i as int]@, test);
            }
            if !self.accounts[i].id.same(id) {
                let copy = self.accounts[i].clone();
                out.push(copy);
                assert(account_views(out@) =~= kept.push(self.accounts@[i as int]@));
            }
            i += 1;
        }
        assert(self.accounts@.take(self.accounts.len() as int) =~= self.accounts@);
        self.accounts = out;
    }

    /// Takes out every transaction booked on `account`; the others keep
    /// their order.
    pub fn remove_transactions_of(&mut self, account: &RecordId)
        ensures
            final(self)@ == (SnapshotView {
                transactions: old(self)@.transactions.filter(booked_elsewhere(account@)),
                ..old(self)@
            }),
    {
        let ghost test = booked_elsewhere(account@);
        let mut out: Vec<TransactionWithId> = Vec::new();
        let mut i: usize = 0;
        proof {
            reveal(Seq::filter);
            assert(transaction_views(self.transactions@.take(0)) =~= Seq::empty());
            assert(transaction_views(out@) =~= Seq::empty());
        }
        while i < self.transactions.len()
            invariant
                i <= self.transactions.len(),
                *self == *old(self),
                test == booked_elsewhere(account@),
                transaction_views(out@) == transaction_views(
                    self.transactions@.take(i as int),
                ).filter(test),
            decreases self.transactions.len() - i,
        {
            let ghost before = transaction_views(self.transactions@.take(i as int));
            let ghost kept = transaction_views(out@);
            proof {
                assert(transaction_views(self.transactions@.take(i + 1)) =~= before.push(
                    self.transactions@[i as int]@,
                ));
                before.lemma_filter_push(self.transactions@[i as int]@, test);
            }
            if !self.transactions[i].account.same(account) {
                let copy = self.transactions[i].clone();
                out.push(copy);
                assert(transaction_views(out@) =~= kept.push(self.transactions@[i as int]@));
            }
            i += 1;
        }
        assert(self.transactions@.take(self.transactions.len() as int) =~= self.transactions@);
        self.transactions = out;
    }
}

/// The test that a category carries the reference `id`.
pub open spec fn category_has_id(id: RecordIdView) -> spec_fn(CategoryView) -> bool {
    |c: CategoryView| c.id == id
}

/// The first of `categories` that carries `id`, if any.
pub open spec fn category_by_id(categories: Seq<CategoryView>, id: RecordIdView) -> Option<
    CategoryView,
> {
    let found = categories.filter(category_has_id(id));
    if found.len() == 0 {
        None
    } else {
        Some(found.first())
    }
}

/// The view of an optional category.
pub open spec fn optional_category_view(category: Option<CategoryWithId>) -> Option<CategoryView> {
    match category {
        Some(c) => Some(c@),
        None => None,
    }
}

/// The test that an allocation does not carry the reference `id`.
pub open spec fn allocation_other_than(id: RecordIdView) -> spec_fn(AllocationView) -> bool {
    |a: AllocationView| a.id != id
}

impl Snapshot {
    /// The category with the reference `id`, if the snapshot holds one.
    pub fn get_category(&self, id: &RecordId) -> (r: Option<CategoryWithId>)
        ensures
            optional_category_view(r) == category_by_id(self@.categories, id@),
    {
        let ghost all = category_views(self.categories@);
        let mut i: usize = 0;
        while i < self.categories.len()
            invariant
                i <= self.categories.len(),
                all == category_views(self.categories@),
                forall|j: int| 0 <= j < i ==> !category_has_id(id@)(#[trigger] all[j]),
            decreases self.categories.len() - i,
        {
            if self.categories[i].id.same(id) {
                proof {
                    lemma_filter_first(all, category_has_id(id@), i as int);
                }
                return Some(self.categories[i].clone());
            }
            i += 1;
        }
        proof {
            lemma_filter_none(all, category_has_id(id@));
        }
        None
    }

    /// Takes out every allocation that carries `id`; the others keep their
    /// order.
    pub fn remove_allocation(&mut self, id: &RecordId)
        ensures
            final(self)@ == (SnapshotView {
                allocations: old(self)@.allocations.filter(allocation_other_than(id@)),
                ..old(self)@
            }),
    {
        let ghost test = allocation_other_than(id@);
        let mut out: Vec<Allocation> = Vec::new();
        let mut i: usize = 0;
        proof {
            reveal(Seq::filter);
            assert(allocation_views(self.allocations@.take(0)) =~= Seq::empty());
            assert(allocation_views(out@) =~= Seq::empty());
        }
        while i < self.allocations.len()
            invariant
                i <= self.allocations.len(),
                *self == *old(self),
                test == allocation_other_than(id@),
                allocation_views(out@) == allocation_views(self.allocations@.take(i as int)).filter(
                    test,
                ),
            decreases self.allocations.len() - i,
        {
            let ghost before = allocation_views(self.allocations@.take(i as int));
            let ghost kept = allocation_views(out@);
            proof {
                assert(allocation_views(self.allocations@.take(i + 1)) =~= before.push(
                    self.allocations@[i as int]@,
                ));
                before.lemma_filter_push(self.allocations@[i as int]@, test);
            }
            if !self.allocations[i].id.same(id) {
                let copy = self.allocations[i].clone();
                out.push(copy);
                assert(allocation_views(out@) =~= kept.push(self.allocations@[i as int]@));
            }
            i += 1;
        }
        assert(self.allocations@.take(self.allocations.len() as int) =~= self.allocations@);
        self.allocations = out;
    }
}

impl SnapshotView {
    /// Whether the snapshot holds a budget under the reference `id`.
    pub open spec fn has_budget(self, id: RecordIdView) -> bool {
        exists|i: int| 0 <= i < self.budgets.len() && (#[trigger] self.budgets[i]).id == id
    }

    /// Whether the snapshot holds a partition under the reference `id`.
    pub open spec fn has_partition(self, id: RecordIdView) -> bool {
        exists|i: int| 0 <= i < self.partitions.len() && (#[trigger] self.partitions[i]).id == id
    }

    /// Whether the snapshot holds an account under the reference `id`.
    pub open spec fn has_account(self, id: RecordIdView) -> bool {
        exists|i: int| 0 <= i < self.accounts.len() && (#[trigger] self.accounts[i]).id == id
    }

    /// Whether every reference from one record to another leads somewhere:
    /// every partition to its budget, every allocation to its partition and
    /// every transaction to its account.
    pub open spec fn references_resolve(self) -> bool {
        &&& forall|i: int|
            0 <= i < self.partitions.len() ==> self.has_budget((#[trigger] self.partitions[i]).budget)
        &&& forall|i: int|
            0 <= i < self.allocations.len() ==> self.has_partition(
                (#[trigger] self.allocations[i]).partition,
            )
        &&& forall|i: int|
            0 <= i < self.transactions.len() ==> self.has_account(
                (#[trigger] self.transactions[i]).account,
            )
    }
}

/// Taking partitions out together with their allocations leaves no allocation
/// without its partition.
pub proof fn lemma_partitions_leave_with_their_allocations(
    snapshot: SnapshotView,
    gone: Seq<RecordIdView>,
)
    requires
        snapshot.references_resolve(),
    ensures
        (SnapshotView {
            partitions: snapshot.partitions.filter(partition_not_among(gone)),
            allocations: snapshot.allocations.filter(allocated_outside(gone)),
            ..snapshot
        }).references_resolve(),
{
    let after = SnapshotView {
        partitions: snapshot.partitions.filter(partition_not_among(gone)),
        allocations: snapshot.allocations.filter(allocated_outside(gone)),
        ..snapshot
    };
    lemma_filter_membership(snapshot.partitions, partition_not_among(gone));
    lemma_filter_membership(snapshot.allocations, allocated_outside(gone));
    assert forall|i: int| 0 <= i < after.partitions.len() implies after.has_budget(
        (#[trigger] after.partitions[i]).budget,
    ) by {
        let p = after.partitions[i];
        assert(after.partitions.contains(p));
        assert(snapshot.partitions.contains(p));
        let k = choose|k: int| 0 <= k < snapshot.partitions.len() && snapshot.partitions[k] == p;
        assert(snapshot.has_budget(snapshot.partitions[k].budget));
        let j = choose|j: int|
            0 <= j < snapshot.budgets.len() && (#[trigger] snapshot.budgets[j]).id == p.budget;
        assert(after.budgets[j].id == p.budget);
    }
    assert forall|i: int| 0 <= i < after.allocations.len() implies after.has_partition(
        (#[trigger] after.allocations[i]).partition,
    ) by {
        let a = after.allocations[i];
        assert(after.allocations.contains(a));
        assert(snapshot.allocations.contains(a));
        let k = choose|k: int| 0 <= k < snapshot.allocations.len() && snapshot.allocations[k] == a;
        assert(snapshot.has_partition(snapshot.allocations[k].partition));
        let j = choose|j: int|
            0 <= j < snapshot.partitions.len() && (#[trigger] snapshot.partitions[j]).id
                == a.partition;
        let p = snapshot.partitions[j];
        assert(snapshot.partitions.contains(p));
        assert(after.partitions.contains(p));
        let m = choose|m: int| 0 <= m < after.partitions.len() && after.partitions[m] == p;
        assert(after.partitions[m].id == a.partition);
    }
}

} // verus!
