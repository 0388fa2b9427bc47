//! Budgets: a monthly income, the accounts that count towards it, and the
//! partitions it is split into.

use crate::account::{account_views, clone_accounts, Account, AccountView};
use crate::budget::partition::{Partition, PartitionView};
use crate::store::{
    allocated_outside, budget_by_id, budget_other_than, ids_of_partitions, owned_by,
    partition_ids, partition_not_among, Snapshot, SnapshotView,
};
use crate::{Error, RecordId, RecordIdView};
use vstd::prelude::*;

pub mod allocation;
pub mod category;
pub mod expenses;
pub mod partition;
pub mod period;
pub mod view;

pub use period::{reset_datetime_hms, ExpensesPeriod};

verus! {

/// A budget: a monthly income in a currency, and the accounts whose
/// transactions count towards it.
#[derive(Debug)]
pub struct Budget {
    pub id: RecordId,
    pub name: String,
    pub income: i64,
    pub currency: String,
    pub accounts: Vec<Account>,
    pub view: view::View,
}

/// What a `Budget` stands for in contracts.
pub ghost struct BudgetView {
    pub id: RecordIdView,
    pub name: Seq<char>,
    pub income: int,
    pub currency: Seq<char>,
    pub accounts: Seq<AccountView>,
    pub view: view::View,
}

impl View for Budget {
    type V = BudgetView;

    open spec fn view(&self) -> BudgetView {
        BudgetView {
            id: self.id@,
            name: self.name@,
            income: self.income as int,
            currency: self.currency@,
            accounts: account_views(self.accounts@),
            view: self.view,
        }
    }
}

impl Clone for Budget {
    fn clone(&self) -> (r: Self)
        ensures
            r@ == self@,
    {
        Budget {
            id: self.id.clone(),
            name: self.name.clone(),
            income: self.income,
            currency: self.currency.clone(),
            accounts: clone_accounts(&self.accounts),
            view: self.view,
        }
    }
}

/// The views of a run of budgets, in order.
pub open spec fn budget_views(budgets: Seq<Budget>) -> Seq<BudgetView> {
    budgets.map_values(|b: Budget| b@)
}

/// The view of a budget or of the failure in its place.
pub open spec fn budget_result_view(r: Result<Budget, Error>) -> Result<BudgetView, Error> {
    match r {
        Ok(b) => Ok(b@),
        Err(e) => Err(e),
    }
}

/// The budget `budget_id` of the snapshot; `RecordNotFound` where it holds
/// none.
pub fn read(snapshot: &Snapshot, budget_id: &RecordId) -> (r: Result<Budget, Error>)
    ensures
        budget_result_view(r) == match budget_by_id(snapshot@.budgets, budget_id@) {
            Some(b) => Ok::<BudgetView, Error>(b),
            None => Err::<BudgetView, Error>(Error::RecordNotFound),
        },
{
    match snapshot.get_budget(budget_id) {
        Some(budget) => Ok(budget),
        None => Err(Error::RecordNotFound),
    }
}

/// A copy of every budget of the snapshot, in the order stored.
pub fn list(snapshot: &Snapshot) -> (r: Vec<Budget>)
    ensures
        budget_views(r@) == snapshot@.budgets,
{
    let mut out: Vec<Budget> = Vec::new();
    let mut i: usize = 0;
    while i < snapshot.budgets.len()
        invariant
            i <= snapshot.budgets.len(),
            out.len() == i,
            forall|j: int| 0 <= j < i ==> (#[trigger] out@[j])@ == snapshot.budgets@[j]@,
        decreases snapshot.budgets.len() - i,
    {
        out.push(snapshot.budgets[i].clone());
        i += 1;
    }
    assert(budget_views(out@) =~= snapshot@.budgets);
    out
}

/// The snapshot without the budget `budget`, without the partitions of that
/// budget and without the allocations of those partitions.
pub open spec fn without_budget(snapshot: SnapshotView, budget: RecordIdView) -> SnapshotView {
    let gone = partition_ids(snapshot.partitions.filter(owned_by(budget)));
    SnapshotView {
        budgets: snapshot.budgets.filter(budget_other_than(budget)),
        partitions: snapshot.partitions.filter(partition_not_among(gone)),
        allocations: snapshot.allocations.filter(allocated_outside(gone)),
        ..snapshot
    }
}

/// Takes the budget `budget_id` out of the snapshot, and with it its
/// partitions and their allocations.
pub fn delete(snapshot: &mut Snapshot, budget_id: &RecordId)
    ensures
        final(snapshot)@ == without_budget(old(snapshot)@, budget_id@),
{
    let partitions = snapshot.list_partitions(budget_id);
    let gone = ids_of_partitions(&partitions);
    snapshot.remove_budget(budget_id);
    snapshot.remove_partitions(&gone);
    snapshot.remove_allocations_of(&gone);
}

/// Deleting a budget leaves no record that refers to nothing: its partitions
/// go with it, and their allocations with them.
pub proof fn lemma_delete_keeps_references(snapshot: SnapshotView, budget: RecordIdView)
    requires
        snapshot.references_resolve(),
    ensures
        without_budget(snapshot, budget).references_resolve(),
{
    let owned = snapshot.partitions.filter(owned_by(budget));
    let gone = partition_ids(owned);
    let after = without_budget(snapshot, budget);
    crate::seqs::lemma_filter_membership(snapshot.partitions, owned_by(budget));
    crate::seqs::lemma_filter_membership(snapshot.partitions, partition_not_among(gone));
    crate::seqs::lemma_filter_membership(snapshot.allocations, allocated_outside(gone));
    crate::seqs::lemma_filter_membership(snapshot.budgets, budget_other_than(budget));
    assert forall|i: int| 0 <= i < after.partitions.len() implies after.has_budget(
        (#[trigger] after.partitions[i]).budget,
    ) by {
        let p = after.partitions[i];
        assert(after.partitions.contains(p));
        assert(snapshot.partitions.contains(p));
        let k = choose|k: int| 0 <= k < snapshot.partitions.len() && snapshot.partitions[k] == p;
        assert(snapshot.has_budget(snapshot.partitions[k].budget));
        if p.budget == budget {
            assert(owned.contains(p));
            let o = choose|o: int| 0 <= o < owned.len() && owned[o] == p;
            assert(gone[o] == p.id);
            assert(gone.contains(p.id));
        }
        let j = choose|j: int|
            0 <= j < snapshot.budgets.len() && (#[trigger] snapshot.budgets[j]).id == p.budget;
        let b = snapshot.budgets[j];
        assert(snapshot.budgets.contains(b));
        assert(after.budgets.contains(b));
        let m = choose|m: int| 0 <= m < after.budgets.len() && after.budgets[m] == b;
        assert(after.budgets[m].id == p.budget);
    }
    assert forall|i: int| 0 <= i < after.allocations.len() implies after.has_partition(
        (#[trigger] after.allocations[i]).partition,
    ) by {
        let a = after.allocations[i];
        assert(after.allocations.contains(a));
        assert(snapshot.allocations.contains(a));
        let k = choose|k: int| 0 <= k < snapshot.allocations.len() && snapshot.allocations[k] == a;
        assert(snapshot.has_partition(snapshot.allocations[k].partition));
        let j = choose|j: int|
            0 <= j < snapshot.partitions.len() && (#[trigger] snapshot.partitions[j]).id
                == a.partition;
        let p = snapshot.partitions[j];
        assert(snapshot.partitions.contains(p));
        assert(after.partitions.contains(p));
        let m = choose|m: int| 0 <= m < after.partitions.len() && after.partitions[m] == p;
        assert(after.partitions[m].id == a.partition);
    }
}

/// The three partitions that a new budget starts with.
#[derive(Clone, Copy, Debug, PartialEq, Eq, Structural)]
pub enum SeedPartition {
    Needs,
    Wants,
    Investments,
}

impl SeedPartition {
    /// What the partition is called.
    pub open spec fn name_text(self) -> Seq<char> {
        match self {
            SeedPartition::Needs => "Needs"@,
            SeedPartition::Wants => "Wants"@,
            SeedPartition::Investments => "Investments"@,
        }
    }

    /// The colour that the partition is shown in.
    pub open spec fn color_text(self) -> Seq<char> {
        match self {
            SeedPartition::Needs => "red"@,
            SeedPartition::Wants => "yellow"@,
            SeedPartition::Investments => "blue"@,
        }
    }

    /// The partition as it is stored for the budget `budget` under the
    /// reference `id`.
    pub open spec fn stored_as(self, id: RecordIdView, budget: RecordIdView) -> PartitionView {
        PartitionView { id, name: self.name_text(), color: self.color_text(), budget }
    }

    /// The partition for the budget `budget`, under the reference `id`.
    pub fn create(&self, id: RecordId, budget: &RecordId) -> (r: Partition)
        ensures
            r@ == self.stored_as(id@, budget@),
    {
        let (name, color) = match self {
            SeedPartition::Needs => ("Needs", "red"),
            SeedPartition::Wants => ("Wants", "yellow"),
            SeedPartition::Investments => ("Investments", "blue"),
        };
        Partition { id, name: name.to_owned(), color: color.to_owned(), budget: budget.clone() }
    }
}

/// The budget that `options` ask for under the reference `id`, with the
/// accounts `accounts`, which shows neither expenses nor allocations yet.
pub open spec fn budget_from(
    id: RecordIdView,
    options: CreateSplitBudgetOptions,
    accounts: Seq<AccountView>,
) -> BudgetView {
    BudgetView {
        id,
        name: options.name@,
        income: options.income as int,
        currency: options.currency@,
        accounts,
        view: view::View { expenses: false, allocations: false },
    }
}

/// Adds to the snapshot the budget that `options` ask for, under the
/// reference `id`, and its three first partitions, Needs, Wants and
/// Investments, under the references `needs`, `wants` and `investments`. The
/// accounts of the budget are those of the snapshot that `options` name, in
/// the order in which the snapshot holds them.
pub fn create_split(
    snapshot: &mut Snapshot,
    id: RecordId,
    needs: RecordId,
    wants: RecordId,
    investments: RecordId,
    options: CreateSplitBudgetOptions,
) -> (r: Budget)
    ensures
        r@ == budget_from(
            id@,
            options,
            old(snapshot)@.accounts.filter(
                crate::store::account_among(crate::store::id_views(options.accounts@)),
            ),
        ),
        final(snapshot)@ == (SnapshotView {
            budgets: old(snapshot)@.budgets.push(r@),
            partitions: old(snapshot)@.partitions.push(
                SeedPartition::Needs.stored_as(needs@, id@),
            ).push(SeedPartition::Wants.stored_as(wants@, id@)).push(
                SeedPartition::Investments.stored_as(investments@, id@),
            ),
            ..old(snapshot)@
        }),
{
    let ghost before = snapshot@;
    let accounts = snapshot.list_accounts_among(&options.accounts);
    let budget = Budget {
        id: id.clone(),
        name: options.name.clone(),
        income: options.income,
        currency: options.currency.clone(),
        accounts,
        view: view::View { expenses: false, allocations: false },
    };
    let copy = budget.clone();
    snapshot.budgets.push(budget);
    snapshot.partitions.push(SeedPartition::Needs.create(needs, &id));
    snapshot.partitions.push(SeedPartition::Wants.create(wants, &id));
    snapshot.partitions.push(SeedPartition::Investments.create(investments, &id));
    proof {
        assert(snapshot@.budgets =~= before.budgets.push(copy@));
        assert(snapshot@.partitions =~= before.partitions.push(
            SeedPartition::Needs.stored_as(needs@, id@),
        ).push(SeedPartition::Wants.stored_as(wants@, id@)).push(
            SeedPartition::Investments.stored_as(investments@, id@),
        ));
    }
    copy
}

/// Adding a budget with partitions that refer to it leaves no record that
/// refers to nothing.
pub proof fn lemma_create_split_keeps_references(
    snapshot: SnapshotView,
    budget: BudgetView,
    needs: RecordIdView,
    wants: RecordIdView,
    investments: RecordIdView,
)
    requires
        snapshot.references_resolve(),
    ensures
        (SnapshotView {
            budgets: snapshot.budgets.push(budget),
            partitions: snapshot.partitions.push(
                SeedPartition::Needs.stored_as(needs, budget.id),
            ).push(SeedPartition::Wants.stored_as(wants, budget.id)).push(
                SeedPartition::Investments.stored_as(investments, budget.id),
            ),
            ..snapshot
        }).references_resolve(),
{
    let after = SnapshotView {
        budgets: snapshot.budgets.push(budget),
        partitions: snapshot.partitions.push(SeedPartition::Needs.stored_as(needs, budget.id)).push(
            SeedPartition::Wants.stored_as(wants, budget.id),
        ).push(SeedPartition::Investments.stored_as(investments, budget.id)),
        ..snapshot
    };
    let n = snapshot.partitions.len() as int;
    assert forall|i: int| 0 <= i < after.partitions.len() implies after.has_budget(
        (#[trigger] after.partitions[i]).budget,
    ) by {
        if i < n {
            assert(after.partitions[i] == snapshot.partitions[i]);
            assert(snapshot.has_budget(snapshot.partitions[i].budget));
            let j = choose|j: int|
                0 <= j < snapshot.budgets.len() && (#[trigger] snapshot.budgets[j]).id
                    == snapshot.partitions[i].budget;
            assert(after.budgets[j].id == after.partitions[i].budget);
        } else {
            assert(after.budgets[snapshot.budgets.len() as int].id == budget.id);
        }
    }
    assert forall|i: int| 0 <= i < after.allocations.len() implies after.has_partition(
        (#[trigger] after.allocations[i]).partition,
    ) by {
        assert(snapshot.has_partition(snapshot.allocations[i].partition));
        let j = choose|j: int|
            0 <= j < snapshot.partitions.len() && (#[trigger] snapshot.partitions[j]).id
                == snapshot.allocations[i].partition;
        assert(after.partitions[j].id == after.allocations[i].partition);
    }
    assert forall|i: int| 0 <= i < after.transactions.len() implies after.has_account(
        (#[trigger] after.transactions[i]).account,
    ) by {
        assert(snapshot.has_account(snapshot.transactions[i].account));
        let j = choose|j: int|
            0 <= j < snapshot.accounts.len() && (#[trigger] snapshot.accounts[j]).id
                == snapshot.transactions[i].account;
        assert(after.accounts[j].id == after.transactions[i].account);
    }
}

/// The name of a budget beside its reference.
#[derive(Debug)]
pub struct BudgetIdentifiers {
    pub name: String,
    pub id: RecordId,
}

/// What is asked for to open a budget with its three first partitions.
#[derive(Debug)]
pub struct CreateSplitBudgetOptions {
    pub name: String,
    pub income: i64,
    pub currency: String,
    pub accounts: Vec<RecordId>,
}

} // verus!
