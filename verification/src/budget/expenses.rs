//! The expense report of a budget over a period: what each category was
//! allowed and what was spent on it, rolled up by partition and by budget.
//!
//! Totals are sums of the totals one level below: those of an allocation come
//! from its group and its transactions, those of a partition from its
//! allocations, those of the budget from its partitions.

use crate::budget::allocation::{group_totals_fit, grouped};
use crate::budget::partition::{partition_views, Partition, PartitionView};
use crate::budget::{Budget, BudgetView};
use crate::datetime::{rfc3339_text, utc_to_rfc3339, DateTime};
use crate::store::{
    account_ids, booked_within, budget_by_id, ids_of_accounts, ids_of_partitions, owned_by,
    partition_ids, Snapshot, SnapshotView,
};
use crate::money::{amounts, checked_amount, fits_amount, sum, sum_amounts};
use crate::transaction::category::{CategoryView, CategoryWithId};
use crate::transaction::{
    total_amount, transaction_amounts, transaction_views, TransactionView, TransactionWithId,
};
use crate::{Error, RecordId, RecordIdView};
use vstd::prelude::*;

pub use crate::budget::ExpensesPeriod;

verus! {

/// One category of one partition in the report.
#[derive(Debug)]
pub struct ExpensesAllocation {
    /// What the transactions of the category add up to.
    pub transactions_total: i64,
    /// What the category is allowed over the period.
    pub allocations_total: i64,
    pub category: CategoryWithId,
    pub transactions: Vec<TransactionWithId>,
}

/// One partition in the report.
#[derive(Debug)]
pub struct ExpensesPartition {
    /// What the allocations of the partition spent, added up.
    pub transactions_total: i64,
    /// What the allocations of the partition are allowed, added up.
    pub allocations_total: i64,
    pub inner: Partition,
    pub allocations: Vec<ExpensesAllocation>,
}

/// The whole budget in the report.
#[derive(Debug)]
pub struct ExpensesBudget {
    /// What the partitions spent, added up.
    pub transactions_total: i64,
    /// What the partitions are allowed, added up.
    pub allocations_total: i64,
    pub inner: Budget,
    pub partitions: Vec<ExpensesPartition>,
    /// The income of the budget over the period.
    pub income_total: i64,
}

/// The report, with the two ends of its period as RFC 3339 text.
#[derive(Debug)]
pub struct ReadExpensesResult {
    pub period_start: String,
    pub period_end: String,
    pub budget: ExpensesBudget,
}

/// The allocations of one partition that share a category, taken together.
#[derive(Debug)]
pub struct AllocationGroup {
    /// The monthly targets of the allocations, added up.
    pub total: i64,
    pub category: CategoryWithId,
    pub partition: RecordId,
}

/// Which period a report is asked for: its length, and a day to start on.
#[derive(Clone, Copy, Debug, PartialEq, Eq, Structural)]
pub struct ReadExpensesOptions {
    pub period: ExpensesPeriod,
    pub start_date: DateTime,
}

/// What an `AllocationGroup` stands for in contracts.
pub ghost struct AllocationGroupView {
    pub total: int,
    pub category: CategoryView,
    pub partition: RecordIdView,
}

/// What an `ExpensesAllocation` stands for in contracts.
pub ghost struct ExpensesAllocationView {
    pub transactions_total: int,
    pub allocations_total: int,
    pub category: CategoryView,
    pub transactions: Seq<TransactionView>,
}

/// What an `ExpensesPartition` stands for in contracts.
pub ghost struct ExpensesPartitionView {
    pub transactions_total: int,
    pub allocations_total: int,
    pub inner: PartitionView,
    pub allocations: Seq<ExpensesAllocationView>,
}

/// What an `ExpensesBudget` stands for in contracts.
pub ghost struct ExpensesBudgetView {
    pub transactions_total: int,
    pub allocations_total: int,
    pub inner: BudgetView,
    pub partitions: Seq<ExpensesPartitionView>,
    pub income_total: int,
}

/// What a `ReadExpensesResult` stands for in contracts.
pub ghost struct ReadExpensesResultView {
    pub period_start: Seq<char>,
    pub period_end: Seq<char>,
    pub budget: ExpensesBudgetView,
}

impl View for AllocationGroup {
    type V = AllocationGroupView;

    open spec fn view(&self) -> AllocationGroupView {
        AllocationGroupView {
            total: self.total as int,
            category: self.category@,
            partition: self.partition@,
        }
    }
}

impl Clone for AllocationGroup {
    fn clone(&self) -> (r: Self)
        ensures
            r@ == self@,
    {
        AllocationGroup {
            total: self.total,
            category: self.category.clone(),
            partition: self.partition.clone(),
        }
    }
}

/// The views of a run of groups, in order.
pub open spec fn group_views(groups: Seq<AllocationGroup>) -> Seq<AllocationGroupView> {
    groups.map_values(|g: AllocationGroup| g@)
}

impl View for ExpensesAllocation {
    type V = ExpensesAllocationView;

    open spec fn view(&self) -> ExpensesAllocationView {
        ExpensesAllocationView {
            transactions_total: self.transactions_total as int,
            allocations_total: self.allocations_total as int,
            category: self.category@,
            transactions: transaction_views(self.transactions@),
        }
    }
}

/// The views of a run of report allocations, in order.
pub open spec fn expenses_allocation_views(
    allocations: Seq<ExpensesAllocation>,
) -> Seq<ExpensesAllocationView> {
    allocations.map_values(|a: ExpensesAllocation| a@)
}

impl View for ExpensesPartition {
    type V = ExpensesPartitionView;

    open spec fn view(&self) -> ExpensesPartitionView {
        ExpensesPartitionView {
            transactions_total: self.transactions_total as int,
            allocations_total: self.allocations_total as int,
            inner: self.inner@,
            allocations: expenses_allocation_views(self.allocations@),
        }
    }
}

/// The views of a run of report partitions, in order.
pub open spec fn expenses_partition_views(
    partitions: Seq<ExpensesPartition>,
) -> Seq<ExpensesPartitionView> {
    partitions.map_values(|p: ExpensesPartition| p@)
}

impl View for ExpensesBudget {
    type V = ExpensesBudgetView;

    open spec fn view(&self) -> ExpensesBudgetView {
        ExpensesBudgetView {
            transactions_total: self.transactions_total as int,
            allocations_total: self.allocations_total as int,
            inner: self.inner@,
            partitions: expenses_partition_views(self.partitions@),
            income_total: self.income_total as int,
        }
    }
}

impl View for ReadExpensesResult {
    type V = ReadExpensesResultView;

    open spec fn view(&self) -> ReadExpensesResultView {
        ReadExpensesResultView {
            period_start: self.period_start@,
            period_end: self.period_end@,
            budget: self.budget@,
        }
    }
}

/// The test that a transaction is filed under `category`.
pub open spec fn in_category(category: RecordIdView) -> spec_fn(TransactionView) -> bool {
    |t: TransactionView| t.category == category
}

/// The test that a group belongs to `partition`.
pub open spec fn of_partition(partition: RecordIdView) -> spec_fn(AllocationGroupView) -> bool {
    |g: AllocationGroupView| g.partition == partition
}

/// What a group becomes in the report: the transactions of its category, in
/// the order given, with their sum, and the target of the group multiplied by
/// the factor of the period.
pub open spec fn allocation_rollup(
    group: AllocationGroupView,
    transactions: Seq<TransactionView>,
    factor: int,
) -> ExpensesAllocationView {
    let matching = transactions.filter(in_category(group.category.id));
    ExpensesAllocationView {
        transactions_total: sum(transaction_amounts(matching)),
        allocations_total: group.total * factor,
        category: group.category,
        transactions: matching,
    }
}

/// `allocation_rollup` against fixed transactions and factor, as a function
/// of the group.
pub open spec fn allocation_rollup_of(
    transactions: Seq<TransactionView>,
    factor: int,
) -> spec_fn(AllocationGroupView) -> ExpensesAllocationView {
    |g: AllocationGroupView| allocation_rollup(g, transactions, factor)
}

/// What the allocations of a run spent, one figure each.
pub open spec fn allocation_spent(allocations: Seq<ExpensesAllocationView>) -> Seq<int> {
    allocations.map_values(|a: ExpensesAllocationView| a.transactions_total)
}

/// What the allocations of a run are allowed, one figure each.
pub open spec fn allocation_allowed(allocations: Seq<ExpensesAllocationView>) -> Seq<int> {
    allocations.map_values(|a: ExpensesAllocationView| a.allocations_total)
}

/// What a partition becomes in the report: its groups in the order given,
/// each rolled up, and the sums of their two totals.
pub open spec fn partition_rollup(
    partition: PartitionView,
    groups: Seq<AllocationGroupView>,
    transactions: Seq<TransactionView>,
    factor: int,
) -> ExpensesPartitionView {
    let allocations = groups.filter(of_partition(partition.id)).map_values(
        allocation_rollup_of(transactions, factor),
    );
    ExpensesPartitionView {
        transactions_total: sum(allocation_spent(allocations)),
        allocations_total: sum(allocation_allowed(allocations)),
        inner: partition,
        allocations,
    }
}

/// `partition_rollup` against fixed groups, transactions and factor, as a
/// function of the partition.
pub open spec fn partition_rollup_of(
    groups: Seq<AllocationGroupView>,
    transactions: Seq<TransactionView>,
    factor: int,
) -> spec_fn(PartitionView) -> ExpensesPartitionView {
    |p: PartitionView| partition_rollup(p, groups, transactions, factor)
}

/// What the partitions of a run spent, one figure each.
pub open spec fn partition_spent(partitions: Seq<ExpensesPartitionView>) -> Seq<int> {
    partitions.map_values(|p: ExpensesPartitionView| p.transactions_total)
}

/// What the partitions of a run are allowed, one figure each.
pub open spec fn partition_allowed(partitions: Seq<ExpensesPartitionView>) -> Seq<int> {
    partitions.map_values(|p: ExpensesPartitionView| p.allocations_total)
}

/// What a budget becomes in the report: its partitions in the order given,
/// each rolled up, the sums of their two totals, and the income multiplied by
/// the factor of the period.
pub open spec fn budget_rollup(
    budget: BudgetView,
    partitions: Seq<PartitionView>,
    groups: Seq<AllocationGroupView>,
    transactions: Seq<TransactionView>,
    factor: int,
) -> ExpensesBudgetView {
    let rolled = partitions.map_values(partition_rollup_of(groups, transactions, factor));
    ExpensesBudgetView {
        transactions_total: sum(partition_spent(rolled)),
        allocations_total: sum(partition_allowed(rolled)),
        inner: budget,
        partitions: rolled,
        income_total: budget.income * factor,
    }
}

/// Both totals of the allocation can be held as amounts.
pub open spec fn allocation_fits(allocation: ExpensesAllocationView) -> bool {
    fits_amount(allocation.transactions_total) && fits_amount(allocation.allocations_total)
}

/// Every total of the partition, its allocations included, can be held as an
/// amount.
pub open spec fn partition_fits(partition: ExpensesPartitionView) -> bool {
    &&& fits_amount(partition.transactions_total)
    &&& fits_amount(partition.allocations_total)
    &&& forall|i: int|
        0 <= i < partition.allocations.len() ==> allocation_fits(#[trigger] partition.allocations[i])
}

/// Every total of the budget, at every level, can be held as an amount.
pub open spec fn budget_fits(budget: ExpensesBudgetView) -> bool {
    &&& fits_amount(budget.transactions_total)
    &&& fits_amount(budget.allocations_total)
    &&& fits_amount(budget.income_total)
    &&& forall|i: int|
        0 <= i < budget.partitions.len() ==> partition_fits(#[trigger] budget.partitions[i])
}

/// The transactions filed under `category`, in the order given.
pub fn select_by_category(transactions: &Vec<TransactionWithId>, category: &RecordId) -> (r: Vec<
    TransactionWithId,
>)
    ensures
        transaction_views(r@) == transaction_views(transactions@).filter(in_category(category@)),
{
    let mut out: Vec<TransactionWithId> = Vec::new();
    let mut i: usize = 0;
    proof {
        assert(transactions@.take(0) =~= Seq::empty());
        assert(transaction_views(transactions@.take(0)) =~= Seq::empty());
        reveal(Seq::filter);
        assert(transaction_views(out@) =~= Seq::empty());
    }
    while i < transactions.len()
        invariant
            i <= transactions.len(),
            transaction_views(out@) == transaction_views(transactions@.take(i as int)).filter(
                in_category(category@),
            ),
        decreases transactions.len() - i,
    {
        let ghost before = transaction_views(transactions@.take(i as int));
        let ghost kept = transaction_views(out@);
        proof {
            assert(transaction_views(transactions@.take(i + 1)) =~= before.push(
                transactions@[i as int]@,
            ));
            before.lemma_filter_push(transactions@[i as int]@, in_category(category@));
        }
        if transactions[i].category.same(category) {
            let copy = transactions[i].clone();
            out.push(copy);
            assert(transaction_views(out@) =~= kept.push(transactions@[i as int]@));
        }
        i += 1;
    }
    assert(transactions@.take(transactions.len() as int) =~= transactions@);
    out
}

/// One group rolled up against the transactions of the period. Fails where
/// one of its two totals cannot be held as an amount, and only there.
pub fn rollup_allocation(
    group: &AllocationGroup,
    transactions: &Vec<TransactionWithId>,
    factor: i64,
) -> (r: Result<ExpensesAllocation, Error>)
    ensures
        r matches Ok(a) ==> a@ == allocation_rollup(
            group@,
            transaction_views(transactions@),
            factor as int,
        ),
        r is Ok <==> allocation_fits(
            allocation_rollup(group@, transaction_views(transactions@), factor as int),
        ),
        r matches Err(e) ==> e == Error::AmountOutOfRange,
{
    let matching = select_by_category(transactions, &group.category.id);
    let spent = total_amount(&matching);
    assert(-0x4000_0000_0000_0000_0000_0000_0000_0000 <= (group.total as int) * (factor as int)
        <= 0x4000_0000_0000_0000_0000_0000_0000_0000) by (nonlinear_arith)
        requires
            -0x8000_0000_0000_0000 <= group.total as int <= 0x8000_0000_0000_0000,
            -0x8000_0000_0000_0000 <= factor as int <= 0x8000_0000_0000_0000,
    {}
    let allowed: i128 = (group.total as i128) * (factor as i128);
    let transactions_total = match checked_amount(spent) {
        Ok(v) => v,
        Err(e) => { return Err(e); },
    };
    let allocations_total = match checked_amount(allowed) {
        Ok(v) => v,
        Err(e) => { return Err(e); },
    };
    Ok(
        ExpensesAllocation {
            transactions_total,
            allocations_total,
            category: group.category.clone(),
            transactions: matching,
        },
    )
}

/// One partition rolled up: its groups among `groups`, each against the
/// transactions of the period. Fails where one of the totals of the partition
/// or of its allocations cannot be held as an amount, and only there.
pub fn rollup_partition(
    partition: &Partition,
    groups: &Vec<AllocationGroup>,
    transactions: &Vec<TransactionWithId>,
    factor: i64,
) -> (r: Result<ExpensesPartition, Error>)
    ensures
        r matches Ok(p) ==> p@ == partition_rollup(
            partition@,
            group_views(groups@),
            transaction_views(transactions@),
            factor as int,
        ),
        r is Ok <==> partition_fits(
            partition_rollup(
                partition@,
                group_views(groups@),
                transaction_views(transactions@),
                factor as int,
            ),
        ),
        r matches Err(e) ==> e == Error::AmountOutOfRange,
{
    let ghost all = group_views(groups@);
    let ghost own = of_partition(partition.id@);
    let ghost roll = allocation_rollup_of(transaction_views(transactions@), factor as int);
    let ghost goal = partition_rollup(
        partition@,
        all,
        transaction_views(transactions@),
        factor as int,
    );
    let mut allocations: Vec<ExpensesAllocation> = Vec::new();
    let mut spent: Vec<i64> = Vec::new();
    let mut allowed: Vec<i64> = Vec::new();
    let mut i: usize = 0;
    proof {
        reveal(Seq::filter);
        assert(group_views(groups@.take(0)) =~= Seq::empty());
        assert(expenses_allocation_views(allocations@) =~= Seq::empty());
        assert(group_views(groups@.take(0)).filter(own).map_values(roll) =~= Seq::empty());
        assert(amounts(spent@) =~= Seq::empty());
        assert(amounts(allowed@) =~= Seq::empty());
        assert(allocation_spent(expenses_allocation_views(allocations@)) =~= Seq::empty());
        assert(allocation_allowed(expenses_allocation_views(allocations@)) =~= Seq::empty());
    }
    while i < groups.len()
        invariant
            i <= groups.len(),
            all == group_views(groups@),
            own == of_partition(partition.id@),
            roll == allocation_rollup_of(transaction_views(transactions@), factor as int),
            goal == partition_rollup(
                partition@,
                all,
                transaction_views(transactions@),
                factor as int,
            ),
            expenses_allocation_views(allocations@) == group_views(groups@.take(i as int)).filter(
                own,
            ).map_values(roll),
            amounts(spent@) == allocation_spent(expenses_allocation_views(allocations@)),
            amounts(allowed@) == allocation_allowed(expenses_allocation_views(allocations@)),
        decreases groups.len() - i,
    {
        let ghost before = group_views(groups@.take(i as int));
        let ghost built = expenses_allocation_views(allocations@);
        proof {
            assert(group_views(groups@.take(i + 1)) =~= before.push(groups@[i as int]@));
            before.lemma_filter_push(groups@[i as int]@, own);
        }
        if groups[i].partition.same(&partition.id) {
            match rollup_allocation(&groups[i], transactions, factor) {
                Ok(allocation) => {
                    proof {
                        assert(roll(groups@[i as int]@) == allocation@);
                        assert(before.filter(own).push(groups@[i as int]@).map_values(roll)
                            =~= before.filter(own).map_values(roll).push(allocation@));
                    }
                    let ghost added = allocation@;
                    let ghost spent_before = amounts(spent@);
                    let ghost allowed_before = amounts(allowed@);
                    spent.push(allocation.transactions_total);
                    allowed.push(allocation.allocations_total);
                    allocations.push(allocation);
                    proof {
                        let now = expenses_allocation_views(allocations@);
                        assert(now =~= built.push(added));
                        assert(amounts(spent@) =~= spent_before.push(added.transactions_total));
                        assert(amounts(allowed@) =~= allowed_before.push(added.allocations_total));
                        assert(allocation_spent(now) =~= allocation_spent(built).push(
                            added.transactions_total,
                        ));
                        assert(allocation_allowed(now) =~= allocation_allowed(built).push(
                            added.allocations_total,
                        ));
                    }
                },
                Err(e) => {
                    proof {
                        assert(all[i as int] == groups@[i as int]@);
                        all.lemma_filter_contains(own, i as int);
                        let k = all.filter(own).index_of(all[i as int]);
                        assert(goal.allocations[k] == roll(all[i as int]));
                        assert(!allocation_fits(goal.allocations[k]));
                    }
                    return Err(e);
                },
            }
        }
        i += 1;
    }
    proof {
        assert(groups@.take(groups.len() as int) =~= groups@);
        assert(expenses_allocation_views(allocations@) == goal.allocations);
        assert forall|k: int| 0 <= k < goal.allocations.len() implies allocation_fits(
            #[trigger] goal.allocations[k],
        ) by {
            assert(goal.allocations[k] == allocations@[k]@);
        }
    }
    let transactions_total = match checked_amount(sum_amounts(&spent)) {
        Ok(v) => v,
        Err(e) => { return Err(e); },
    };
    let allocations_total = match checked_amount(sum_amounts(&allowed)) {
        Ok(v) => v,
        Err(e) => { return Err(e); },
    };
    Ok(ExpensesPartition { transactions_total, allocations_total, inner: partition.clone(), allocations })
}

/// The budget rolled up: its partitions in the order given, each with its
/// groups, against the transactions of the period, and the income over the
/// period. Fails where one of the totals, at any level, cannot be held as an
/// amount, and only there.
pub fn rollup_budget(
    budget: &Budget,
    partitions: &Vec<Partition>,
    groups: &Vec<AllocationGroup>,
    transactions: &Vec<TransactionWithId>,
    factor: i64,
) -> (r: Result<ExpensesBudget, Error>)
    ensures
        r matches Ok(b) ==> b@ == budget_rollup(
            budget@,
            partition_views(partitions@),
            group_views(groups@),
            transaction_views(transactions@),
            factor as int,
        ),
        r is Ok <==> budget_fits(
            budget_rollup(
                budget@,
                partition_views(partitions@),
                group_views(groups@),
                transaction_views(transactions@),
                factor as int,
            ),
        ),
        r matches Err(e) ==> e == Error::AmountOutOfRange,
{
    let ghost all = partition_views(partitions@);
    let ghost roll = partition_rollup_of(
        group_views(groups@),
        transaction_views(transactions@),
        factor as int,
    );
    let ghost goal = budget_rollup(
        budget@,
        all,
        group_views(groups@),
        transaction_views(transactions@),
        factor as int,
    );
    let mut rolled: Vec<ExpensesPartition> = Vec::new();
    let mut spent: Vec<i64> = Vec::new();
    let mut allowed: Vec<i64> = Vec::new();
    let mut i: usize = 0;
    proof {
        assert(partition_views(partitions@.take(0)) =~= Seq::empty());
        assert(expenses_partition_views(rolled@) =~= Seq::empty());
        assert(partition_views(partitions@.take(0)).map_values(roll) =~= Seq::empty());
        assert(amounts(spent@) =~= Seq::empty());
        assert(amounts(allowed@) =~= Seq::empty());
        assert(partition_spent(expenses_partition_views(rolled@)) =~= Seq::empty());
        assert(partition_allowed(expenses_partition_views(rolled@)) =~= Seq::empty());
    }
    while i < partitions.len()
        invariant
            i <= partitions.len(),
            all == partition_views(partitions@),
            roll == partition_rollup_of(
                group_views(groups@),
                transaction_views(transactions@),
                factor as int,
            ),
            goal == budget_rollup(
                budget@,
                all,
                group_views(groups@),
                transaction_views(transactions@),
                factor as int,
            ),
            expenses_partition_views(rolled@) == partition_views(
                partitions@.take(i as int),
            ).map_values(roll),
            amounts(spent@) == partition_spent(expenses_partition_views(rolled@)),
            amounts(allowed@) == partition_allowed(expenses_partition_views(rolled@)),
        decreases partitions.len() - i,
    {
        let ghost before = partition_views(partitions@.take(i as int));
        let ghost built = expenses_partition_views(rolled@);
        proof {
            assert(partition_views(partitions@.take(i + 1)) =~= before.push(partitions@[i as int]@));
        }
        match rollup_partition(&partitions[i], groups, transactions, factor) {
            Ok(partition) => {
                proof {
                    assert(roll(partitions@[i as int]@) == partition@);
                    assert(before.push(partitions@[i as int]@).map_values(roll)
                        =~= before.map_values(roll).push(partition@));
                }
                let ghost added = partition@;
                let ghost spent_before = amounts(spent@);
                let ghost allowed_before = amounts(allowed@);
                spent.push(partition.transactions_total);
                allowed.push(partition.allocations_total);
                rolled.push(partition);
                proof {
                    let now = expenses_partition_views(rolled@);
                    assert(now =~= built.push(added));
                    assert(amounts(spent@) =~= spent_before.push(added.transactions_total));
                    assert(amounts(allowed@) =~= allowed_before.push(added.allocations_total));
                    assert(partition_spent(now) =~= partition_spent(built).push(
                        added.transactions_total,
                    ));
                    assert(partition_allowed(now) =~= partition_allowed(built).push(
                        added.allocations_total,
                    ));
                }
            },
            Err(e) => {
                proof {
                    assert(all[i as int] == partitions@[i as int]@);
                    assert(goal.partitions[i as int] == roll(all[i as int]));
                    assert(!partition_fits(goal.partitions[i as int]));
                }
                return Err(e);
            },
        }
        i += 1;
    }
    proof {
        assert(partitions@.take(partitions.len() as int) =~= partitions@);
        assert(expenses_partition_views(rolled@) == goal.partitions);
        assert forall|k: int| 0 <= k < goal.partitions.len() implies partition_fits(
            #[trigger] goal.partitions[k],
        ) by {
            assert(goal.partitions[k] == rolled@[k]@);
        }
    }
    let transactions_total = match checked_amount(sum_amounts(&spent)) {
        Ok(v) => v,
        Err(e) => { return Err(e); },
    };
    let allocations_total = match checked_amount(sum_amounts(&allowed)) {
        Ok(v) => v,
        Err(e) => { return Err(e); },
    };
    assert(-0x4000_0000_0000_0000_0000_0000_0000_0000 <= (budget.income as int) * (factor as int)
        <= 0x4000_0000_0000_0000_0000_0000_0000_0000) by (nonlinear_arith)
        requires
            -0x8000_0000_0000_0000 <= budget.income as int <= 0x8000_0000_0000_0000,
            -0x8000_0000_0000_0000 <= factor as int <= 0x8000_0000_0000_0000,
    {}
    let income_total = match checked_amount((budget.income as i128) * (factor as i128)) {
        Ok(v) => v,
        Err(e) => { return Err(e); },
    };
    Ok(
        ExpensesBudget {
            transactions_total,
            allocations_total,
            inner: budget.clone(),
            partitions: rolled,
            income_total,
        },
    )
}

/// The report made of its three parts.
pub fn assemble(period_start: String, period_end: String, budget: ExpensesBudget) -> (r:
    ReadExpensesResult)
    ensures
        r@.period_start == period_start@,
        r@.period_end == period_end@,
        r@.budget == budget@,
{
    ReadExpensesResult { period_start, period_end, budget }
}

/// The report of `budget` over the window from `start` to `end`, from what
/// `snapshot` holds: the partitions of the budget, their allocations grouped
/// by partition and category, and the transactions booked on the accounts of
/// the budget within the window. Fails where a total does not fit an amount.
pub open spec fn report_over(
    snapshot: SnapshotView,
    budget: BudgetView,
    start: DateTime,
    end: DateTime,
    factor: int,
) -> Result<ReadExpensesResultView, Error> {
    let partitions = snapshot.partitions.filter(owned_by(budget.id));
    let ids = partition_ids(partitions);
    let transactions = snapshot.transactions.filter(
        booked_within(account_ids(budget.accounts), start, end),
    );
    let rolled = budget_rollup(
        budget,
        partitions,
        grouped(snapshot.allocations, ids),
        transactions,
        factor,
    );
    if group_totals_fit(snapshot.allocations, ids) && budget_fits(rolled) {
        Ok(
            ReadExpensesResultView {
                period_start: rfc3339_text(start),
                period_end: rfc3339_text(end),
                budget: rolled,
            },
        )
    } else {
        Err(Error::AmountOutOfRange)
    }
}

/// The report that `read` owes: the failure of the calendar where the period
/// cannot be resolved; otherwise `RecordNotFound` where the snapshot holds no
/// such budget; otherwise the report over the resolved window.
pub open spec fn report(
    snapshot: SnapshotView,
    budget_id: RecordIdView,
    options: ReadExpensesOptions,
) -> Result<ReadExpensesResultView, Error> {
    match options.period.window_at(options.start_date) {
        Err(e) => Err(e),
        Ok((start, end)) => match budget_by_id(snapshot.budgets, budget_id) {
            None => Err(Error::RecordNotFound),
            Some(budget) => report_over(snapshot, budget, start, end, options.period.factor()),
        },
    }
}

/// The view of a report or of the failure in its place.
pub open spec fn report_view(r: Result<ReadExpensesResult, Error>) -> Result<
    ReadExpensesResultView,
    Error,
> {
    match r {
        Ok(report) => Ok(report@),
        Err(e) => Err(e),
    }
}

/// The expense report of the budget `budget_id` over the period that
/// `options` asks for, from the records of `snapshot`.
pub fn read(snapshot: &Snapshot, budget_id: &RecordId, options: ReadExpensesOptions) -> (r: Result<
    ReadExpensesResult,
    Error,
>)
    ensures
        report_view(r) == report(snapshot@, budget_id@, options),
{
    let (start, end) = match options.period.resolve(options.start_date) {
        Ok(window) => window,
        Err(e) => {
            return Err(e);
        },
    };
    let budget = match snapshot.get_budget(budget_id) {
        Some(budget) => budget,
        None => {
            return Err(Error::RecordNotFound);
        },
    };
    let partitions = snapshot.list_partitions(&budget.id);
    let ids = ids_of_partitions(&partitions);
    let groups = match snapshot.group_allocation_totals(&ids) {
        Ok(groups) => groups,
        Err(e) => {
            return Err(e);
        },
    };
    let accounts = ids_of_accounts(&budget.accounts);
    let transactions = snapshot.list_transactions(&accounts, start, end);
    let factor = options.period.period_factor();
    let rolled = match rollup_budget(&budget, &partitions, &groups, &transactions, factor) {
        Ok(rolled) => rolled,
        Err(e) => {
            return Err(e);
        },
    };
    let period_start = utc_to_rfc3339(start);
    let period_end = utc_to_rfc3339(end);
    Ok(assemble(period_start, period_end, rolled))
}

/// Every total of the report is the sum of the totals one level below: those
/// of the budget over its partitions, those of each partition over its
/// allocations, what an allocation spent over its transactions; what an
/// allocation is allowed is the target of its group multiplied by the factor
/// of the period, and the income that of the budget multiplied likewise.
pub proof fn lemma_totals_roll_up(
    budget: BudgetView,
    partitions: Seq<PartitionView>,
    groups: Seq<AllocationGroupView>,
    transactions: Seq<TransactionView>,
    factor: int,
)
    ensures
        ({
            let b = budget_rollup(budget, partitions, groups, transactions, factor);
            &&& b.allocations_total == sum(partition_allowed(b.partitions))
            &&& b.transactions_total == sum(partition_spent(b.partitions))
            &&& b.income_total == budget.income * factor
            &&& b.partitions.len() == partitions.len()
            &&& forall|i: int|
                0 <= i < b.partitions.len() ==> {
                    let p = #[trigger] b.partitions[i];
                    &&& p.inner == partitions[i]
                    &&& p.allocations_total == sum(allocation_allowed(p.allocations))
                    &&& p.transactions_total == sum(allocation_spent(p.allocations))
                    &&& p.allocations.len() == groups.filter(of_partition(partitions[i].id)).len()
                    &&& forall|k: int|
                        0 <= k < p.allocations.len() ==> {
                            let a = #[trigger] p.allocations[k];
                            let g = groups.filter(of_partition(partitions[i].id))[k];
                            &&& a.allocations_total == g.total * factor
                            &&& a.transactions_total == sum(transaction_amounts(a.transactions))
                            &&& a.transactions == transactions.filter(in_category(g.category.id))
                        }
                }
        }),
{
}

/// Two reports made of the same snapshot for the same request are the same.
pub proof fn lemma_read_is_repeatable(
    snapshot: SnapshotView,
    budget_id: RecordIdView,
    options: ReadExpensesOptions,
    first: Result<ReadExpensesResult, Error>,
    second: Result<ReadExpensesResult, Error>,
)
    requires
        report_view(first) == report(snapshot, budget_id, options),
        report_view(second) == report(snapshot, budget_id, options),
    ensures
        report_view(first) == report_view(second),
{
}

} // verus!
