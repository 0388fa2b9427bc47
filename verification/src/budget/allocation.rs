//! Allocations: the target amounts that a partition sets aside per category.

use crate::budget::expenses::{group_views, AllocationGroup, AllocationGroupView};
use crate::money::{
    checked_amount, fits_amount, lemma_filtered_sum_permutation, lemma_sum_push, sum,
};
use crate::store::{
    allocated_within, allocation_other_than, category_by_id, contains_id, id_views, Snapshot,
    SnapshotView,
};
use crate::transaction::category::{CATEGORY_TABLE, OTHER_CATEGORY_KEY};
use crate::transaction::category::{CategoryView, CategoryWithId};
use crate::{Error, RecordId, RecordIdView};
use vstd::prelude::*;

verus! {

/// A stored allocation: a monthly target for one category in one partition.
#[derive(Debug)]
pub struct Allocation {
    pub id: RecordId,
    pub name: String,
    pub amount: i64,
    pub category: CategoryWithId,
    pub partition: RecordId,
}

/// What an `Allocation` stands for in contracts.
pub ghost struct AllocationView {
    pub id: RecordIdView,
    pub name: Seq<char>,
    pub amount: int,
    pub category: CategoryView,
    pub partition: RecordIdView,
}

impl View for Allocation {
    type V = AllocationView;

    open spec fn view(&self) -> AllocationView {
        AllocationView {
            id: self.id@,
            name: self.name@,
            amount: self.amount as int,
            category: self.category@,
            partition: self.partition@,
        }
    }
}

impl Clone for Allocation {
    fn clone(&self) -> (r: Self)
        ensures
            r@ == self@,
    {
        Allocation {
            id: self.id.clone(),
            name: self.name.clone(),
            amount: self.amount,
            category: self.category.clone(),
            partition: self.partition.clone(),
        }
    }
}

/// The views of a run of allocations, in order.
pub open spec fn allocation_views(allocations: Seq<Allocation>) -> Seq<AllocationView> {
    allocations.map_values(|a: Allocation| a@)
}

/// What is asked for to add an allocation; without a category it goes to the
/// reserved fallback category.
#[derive(Debug)]
pub struct CreateAllocationOptions {
    pub name: String,
    pub category: Option<RecordId>,
    pub amount: i64,
    pub partition: RecordId,
}

/// What is asked for to change an allocation.
#[derive(Debug)]
pub struct UpdateAllocationOptions {
    pub id: RecordId,
    pub name: String,
    pub category: RecordId,
    pub amount: i64,
    pub partition: RecordId,
}

/// The test that an allocation belongs to `partition` under `category`.
pub open spec fn same_group(partition: RecordIdView, category: RecordIdView) -> spec_fn(
    AllocationView,
) -> bool {
    |a: AllocationView| a.partition == partition && a.category.id == category
}

/// The target amount of an allocation.
pub open spec fn target_of() -> spec_fn(AllocationView) -> int {
    |a: AllocationView| a.amount
}

/// The target amounts of a run of allocations, in order.
pub open spec fn allocation_amounts(allocations: Seq<AllocationView>) -> Seq<int> {
    allocations.map_values(target_of())
}

/// The sum of the targets of the allocations of `partition` under `category`.
pub open spec fn group_total(
    allocations: Seq<AllocationView>,
    partition: RecordIdView,
    category: RecordIdView,
) -> int {
    sum(allocation_amounts(allocations.filter(same_group(partition, category))))
}

/// Whether one of `groups` stands for `partition` and `category`.
pub open spec fn has_group(
    groups: Seq<AllocationGroupView>,
    partition: RecordIdView,
    category: RecordIdView,
) -> bool {
    exists|k: int|
        0 <= k < groups.len() && (#[trigger] groups[k]).partition == partition
            && groups[k].category.id == category
}

/// The group that the allocation `leader` opens among `allocations`.
pub open spec fn group_led_by(
    allocations: Seq<AllocationView>,
    leader: AllocationView,
) -> AllocationGroupView {
    AllocationGroupView {
        total: group_total(allocations, leader.partition, leader.category.id),
        category: leader.category,
        partition: leader.partition,
    }
}

/// The groups that the first `upto` of `allocations` open: one for each pair
/// of a partition among `partitions` and a category, in the order in which
/// the pairs first occur, with the category as its first allocation has it
/// and the sum of the targets of all the allocations of the pair.
pub open spec fn grouped_upto(
    allocations: Seq<AllocationView>,
    upto: int,
    partitions: Seq<RecordIdView>,
) -> Seq<AllocationGroupView>
    decreases upto,
{
    if upto <= 0 {
        Seq::empty()
    } else {
        let rest = grouped_upto(allocations, upto - 1, partitions);
        let a = allocations[upto - 1];
        if partitions.contains(a.partition) && !has_group(rest, a.partition, a.category.id) {
            rest.push(group_led_by(allocations, a))
        } else {
            rest
        }
    }
}

/// The groups of `allocations` within `partitions`.
pub open spec fn grouped(
    allocations: Seq<AllocationView>,
    partitions: Seq<RecordIdView>,
) -> Seq<AllocationGroupView> {
    grouped_upto(allocations, allocations.len() as int, partitions)
}

/// Whether the sum of every group within `partitions` can be held as an amount.
pub open spec fn group_totals_fit(
    allocations: Seq<AllocationView>,
    partitions: Seq<RecordIdView>,
) -> bool {
    forall|i: int|
        0 <= i < allocations.len() && partitions.contains((#[trigger] allocations[i]).partition)
            ==> fits_amount(
            group_total(allocations, allocations[i].partition, allocations[i].category.id),
        )
}

/// Whether one of `groups` stands for `partition` and `category`.
pub fn find_group(groups: &Vec<AllocationGroup>, partition: &RecordId, category: &RecordId) -> (r:
    bool)
    ensures
        r == has_group(group_views(groups@), partition@, category@),
{
    let mut i: usize = 0;
    while i < groups.len()
        invariant
            i <= groups.len(),
            forall|k: int|
                0 <= k < i ==> !((#[trigger] group_views(groups@)[k]).partition == partition@
                    && group_views(groups@)[k].category.id == category@),
        decreases groups.len() - i,
    {
        if groups[i].partition.same(partition) && groups[i].category.id.same(category) {
            assert(group_views(groups@)[i as int].partition == partition@);
            return true;
        }
        i += 1;
    }
    false
}

/// The sum of the targets of the allocations of `partition` under `category`.
pub fn group_target(allocations: &Vec<Allocation>, partition: &RecordId, category: &RecordId) -> (r:
    i128)
    ensures
        r == group_total(allocation_views(allocations@), partition@, category@),
{
    let ghost test = same_group(partition@, category@);
    let mut total: i128 = 0;
    let mut i: usize = 0;
    proof {
        reveal(Seq::filter);
        assert(allocation_views(allocations@.take(0)) =~= Seq::empty());
        assert(allocation_amounts(Seq::<AllocationView>::empty()) =~= Seq::empty());
    }
    while i < allocations.len()
        invariant
            i <= allocations.len(),
            test == same_group(partition@, category@),
            total == sum(
                allocation_amounts(allocation_views(allocations@.take(i as int)).filter(test)),
            ),
            i * i64::MIN <= total <= i * i64::MAX,
        decreases allocations.len() - i,
    {
        proof {
            let before = allocation_views(allocations@.take(i as int));
            let a = allocations@[i as int]@;
            assert(allocation_views(allocations@.take(i + 1)) =~= before.push(a));
            before.lemma_filter_push(a, test);
            if test(a) {
                assert(allocation_amounts(before.filter(test).push(a)) =~= allocation_amounts(
                    before.filter(test),
                ).push(a.amount));
                lemma_sum_push(allocation_amounts(before.filter(test)), a.amount);
            }
        }
        if allocations[i].partition.same(partition) && allocations[i].category.id.same(category) {
            total = total + (allocations[i].amount as i128);
        }
        i += 1;
    }
    assert(allocations@.take(allocations.len() as int) =~= allocations@);
    total
}

/// The allocations of `partitions` taken together by partition and category.
/// Fails where the sum of one of the groups cannot be held as an amount, and
/// only there.
pub fn group_totals(allocations: &Vec<Allocation>, partitions: &Vec<RecordId>) -> (r: Result<
    Vec<AllocationGroup>,
    Error,
>)
    ensures
        r matches Ok(groups) ==> group_views(groups@) == grouped(
            allocation_views(allocations@),
            id_views(partitions@),
        ),
        r is Ok <==> group_totals_fit(allocation_views(allocations@), id_views(partitions@)),
        r matches Err(e) ==> e == Error::AmountOutOfRange,
{
    let ghost all = allocation_views(allocations@);
    let ghost ids = id_views(partitions@);
    let mut out: Vec<AllocationGroup> = Vec::new();
    let mut i: usize = 0;
    proof {
        assert(group_views(out@) =~= Seq::empty());
    }
    while i < allocations.len()
        invariant
            i <= allocations.len(),
            all == allocation_views(allocations@),
            ids == id_views(partitions@),
            group_views(out@) == grouped_upto(all, i as int, ids),
            forall|k: int|
                0 <= k < out.len() ==> (#[trigger] group_views(out@)[k]).total == group_total(
                    all,
                    group_views(out@)[k].partition,
                    group_views(out@)[k].category.id,
                ),
            forall|j: int|
                0 <= j < i && ids.contains((#[trigger] all[j]).partition) ==> fits_amount(
                    group_total(all, all[j].partition, all[j].category.id),
                ),
        decreases allocations.len() - i,
    {
        let a = &allocations[i];
        let ghost built = group_views(out@);
        assert(all[i as int] == a@);
        if contains_id(partitions, &a.partition) {
            if find_group(&out, &a.partition, &a.category.id) {
                proof {
                    let k = choose|k: int|
                        0 <= k < built.len() && (#[trigger] built[k]).partition == a@.partition
                            && built[k].category.id == a@.category.id;
                    assert(built[k].total == out@[k].total as int);
                }
            } else {
                let total = match checked_amount(group_target(allocations, &a.partition, &a.category.id)) {
                    Ok(v) => v,
                    Err(e) => {
                        return Err(e);
                    },
                };
                let group = AllocationGroup {
                    total,
                    category: a.category.clone(),
                    partition: a.partition.clone(),
                };
                assert(group@ == group_led_by(all, a@));
                out.push(group);
                assert(group_views(out@) =~= built.push(group_led_by(all, a@)));
            }
        }
        i += 1;
    }
    Ok(out)
}

/// The sum of a group is the sum of the targets of the allocations that share
/// its partition and its category, in whatever order the allocations come.
pub proof fn lemma_group_total_ignores_order(
    first: Seq<AllocationView>,
    second: Seq<AllocationView>,
    partition: RecordIdView,
    category: RecordIdView,
)
    requires
        first.to_multiset() == second.to_multiset(),
    ensures
        group_total(first, partition, category) == group_total(second, partition, category),
{
    lemma_filtered_sum_permutation(first, second, same_group(partition, category), target_of());
}

/// The partition and the category that a group stands for.
pub open spec fn group_key() -> spec_fn(AllocationGroupView) -> (RecordIdView, RecordIdView) {
    |g: AllocationGroupView| (g.partition, g.category.id)
}

/// The category that a group stands for.
pub open spec fn group_category() -> spec_fn(AllocationGroupView) -> RecordIdView {
    |g: AllocationGroupView| g.category.id
}

/// No two groups stand for the same partition and category; so within one
/// partition no two groups stand for the same category, and a transaction is
/// counted under one of them at most.
pub proof fn lemma_one_group_for_each_category(
    allocations: Seq<AllocationView>,
    partitions: Seq<RecordIdView>,
    partition: RecordIdView,
)
    ensures
        crate::seqs::apart(grouped(allocations, partitions), group_key()),
        crate::seqs::apart(
            grouped(allocations, partitions).filter(
                crate::budget::expenses::of_partition(partition),
            ),
            group_category(),
        ),
{
    let groups = grouped(allocations, partitions);
    let own = crate::budget::expenses::of_partition(partition);
    lemma_groups_are_sums(allocations, allocations.len() as int, partitions);
    assert(crate::seqs::apart(groups, group_key()));
    crate::seqs::lemma_filter_keeps_apart(groups, own, group_key());
    let kept = groups.filter(own);
    assert forall|i: int, j: int| 0 <= i < j < kept.len() implies group_category()(
        #[trigger] kept[i],
    ) != group_category()(#[trigger] kept[j]) by {
        crate::seqs::lemma_filter_kept(groups, own, i);
        crate::seqs::lemma_filter_kept(groups, own, j);
        assert(group_key()(kept[i]) != group_key()(kept[j]));
    }
}

/// Every group among the first `upto` allocations carries the sum of the
/// targets of all the allocations of its partition and category, stands for
/// an allocation of one of the partitions asked for, and shares its partition
/// and category with no other group.
pub proof fn lemma_groups_are_sums(
    allocations: Seq<AllocationView>,
    upto: int,
    partitions: Seq<RecordIdView>,
)
    requires
        0 <= upto <= allocations.len(),
    ensures
        forall|k: int|
            0 <= k < grouped_upto(allocations, upto, partitions).len() ==> {
                let g = #[trigger] grouped_upto(allocations, upto, partitions)[k];
                &&& g.total == group_total(allocations, g.partition, g.category.id)
                &&& partitions.contains(g.partition)
            },
        forall|k: int, l: int|
            0 <= k < l < grouped_upto(allocations, upto, partitions).len() ==> {
                let g = #[trigger] grouped_upto(allocations, upto, partitions)[k];
                let h = #[trigger] grouped_upto(allocations, upto, partitions)[l];
                g.partition != h.partition || g.category.id != h.category.id
            },
        forall|i: int|
            0 <= i < upto && partitions.contains((#[trigger] allocations[i]).partition)
                ==> has_group(
                grouped_upto(allocations, upto, partitions),
                allocations[i].partition,
                allocations[i].category.id,
            ),
    decreases upto,
{
    if upto > 0 {
        lemma_groups_are_sums(allocations, upto - 1, partitions);
        let rest = grouped_upto(allocations, upto - 1, partitions);
        let now = grouped_upto(allocations, upto, partitions);
        let a = allocations[upto - 1];
        assert forall|i: int|
            0 <= i < upto && partitions.contains((#[trigger] allocations[i]).partition) implies has_group(
            now,
            allocations[i].partition,
            allocations[i].category.id,
        ) by {
            if i < upto - 1 {
                let k = choose|k: int|
                    0 <= k < rest.len() && (#[trigger] rest[k]).partition == allocations[i].partition
                        && rest[k].category.id == allocations[i].category.id;
                assert(now[k] == rest[k]);
            } else if has_group(rest, a.partition, a.category.id) {
            } else {
                assert(now[rest.len() as int] == group_led_by(allocations, a));
            }
        }
    }
}

impl Snapshot {
    /// The allocations of `partitions` taken together by partition and
    /// category. Fails where the sum of one of the groups cannot be held as
    /// an amount, and only there.
    pub fn group_allocation_totals(&self, partitions: &Vec<RecordId>) -> (r: Result<
        Vec<AllocationGroup>,
        Error,
    >)
        ensures
            r matches Ok(groups) ==> group_views(groups@) == grouped(
                self@.allocations,
                id_views(partitions@),
            ),
            r is Ok <==> group_totals_fit(self@.allocations, id_views(partitions@)),
            r matches Err(e) ==> e == Error::AmountOutOfRange,
    {
        group_totals(&self.allocations, partitions)
    }
}

/// The category that an allocation goes to: the one chosen, or the reserved
/// fallback.
pub open spec fn chosen_category(choice: Option<RecordId>) -> RecordIdView {
    match choice {
        Some(id) => id@,
        None => RecordIdView { table: CATEGORY_TABLE@, key: OTHER_CATEGORY_KEY@ },
    }
}

/// The view of an allocation or of the failure in its place.
pub open spec fn allocation_result_view(r: Result<Allocation, Error>) -> Result<
    AllocationView,
    Error,
> {
    match r {
        Ok(a) => Ok(a@),
        Err(e) => Err(e),
    }
}

/// What `create` owes: `RecordNotFound` where the snapshot does not hold the
/// category that the allocation goes to; otherwise the allocation under the
/// reference `id`, with that category as the snapshot has it.
pub open spec fn allocation_from(
    snapshot: SnapshotView,
    id: RecordIdView,
    options: CreateAllocationOptions,
) -> Result<AllocationView, Error> {
    match category_by_id(snapshot.categories, chosen_category(options.category)) {
        None => Err(Error::RecordNotFound),
        Some(category) => Ok(
            AllocationView {
                id,
                name: options.name@,
                amount: options.amount as int,
                category,
                partition: options.partition@,
            },
        ),
    }
}

/// Adds to the snapshot the allocation that `options` ask for, under the
/// reference `id`, after those it holds. Without a category the allocation
/// goes to the reserved fallback. Where the snapshot does not hold the
/// category it stays as it is.
pub fn create(snapshot: &mut Snapshot, id: RecordId, options: CreateAllocationOptions) -> (r: Result<
    Allocation,
    Error,
>)
    ensures
        allocation_result_view(r) == allocation_from(old(snapshot)@, id@, options),
        final(snapshot)@ == (SnapshotView {
            allocations: match allocation_from(old(snapshot)@, id@, options) {
                Ok(a) => old(snapshot)@.allocations.push(a),
                Err(_) => old(snapshot)@.allocations,
            },
            ..old(snapshot)@
        }),
{
    let ghost before = snapshot@;
    let wanted = crate::transaction::category::category_or_other(options.category);
    let category = match snapshot.get_category(&wanted) {
        Some(category) => category,
        None => {
            return Err(Error::RecordNotFound);
        },
    };
    let allocation = Allocation {
        id,
        name: options.name,
        amount: options.amount,
        category,
        partition: options.partition,
    };
    let copy = allocation.clone();
    snapshot.allocations.push(allocation);
    assert(snapshot@.allocations =~= before.allocations.push(copy@));
    Ok(copy)
}

/// The allocations of `partitions`, in the order stored.
pub fn read(snapshot: &Snapshot, partitions: &Vec<RecordId>) -> (r: Vec<Allocation>)
    ensures
        allocation_views(r@) == snapshot@.allocations.filter(
            allocated_within(id_views(partitions@)),
        ),
{
    snapshot.list_allocations(partitions)
}

/// Takes the allocation `allocation` out of the snapshot.
pub fn delete(snapshot: &mut Snapshot, allocation: &RecordId)
    ensures
        final(snapshot)@ == (SnapshotView {
            allocations: old(snapshot)@.allocations.filter(allocation_other_than(allocation@)),
            ..old(snapshot)@
        }),
{
    snapshot.remove_allocation(allocation);
}

} // verus!
