//! Partitions: the named buckets of a budget.

use crate::store::{allocated_outside, id_views, owned_by, partition_not_among, Snapshot, SnapshotView};
use crate::{RecordId, RecordIdView};
use vstd::prelude::*;

verus! {

/// A stored partition and the budget that owns it.
#[derive(Debug)]
pub struct Partition {
    pub id: RecordId,
    pub name: String,
    pub color: String,
    pub budget: RecordId,
}

/// What a `Partition` stands for in contracts.
pub ghost struct PartitionView {
    pub id: RecordIdView,
    pub name: Seq<char>,
    pub color: Seq<char>,
    pub budget: RecordIdView,
}

impl View for Partition {
    type V = PartitionView;

    open spec fn view(&self) -> PartitionView {
        PartitionView { id: self.id@, name: self.name@, color: self.color@, budget: self.budget@ }
    }
}

impl Clone for Partition {
    fn clone(&self) -> (r: Self)
        ensures
            r@ == self@,
    {
        Partition {
            id: self.id.clone(),
            name: self.name.clone(),
            color: self.color.clone(),
            budget: self.budget.clone(),
        }
    }
}

/// The views of a run of partitions, in order.
pub open spec fn partition_views(partitions: Seq<Partition>) -> Seq<PartitionView> {
    partitions.map_values(|p: Partition| p@)
}

/// What is asked for to add a partition to a budget.
#[derive(Debug)]
pub struct CreatePartitionOptions {
    pub name: String,
    pub color: String,
}

/// The partition that `options` ask for, for the budget `budget` and under
/// the reference `id`.
pub open spec fn partition_from(
    id: RecordIdView,
    budget: RecordIdView,
    options: CreatePartitionOptions,
) -> PartitionView {
    PartitionView { id, name: options.name@, color: options.color@, budget }
}

/// Adds to the snapshot the partition that `options` ask for, for the budget
/// `budget_id` and under the reference `id`, after those it holds.
pub fn create(
    snapshot: &mut Snapshot,
    id: RecordId,
    budget_id: RecordId,
    options: CreatePartitionOptions,
) -> (r: Partition)
    ensures
        r@ == partition_from(id@, budget_id@, options),
        final(snapshot)@ == (SnapshotView {
            partitions: old(snapshot)@.partitions.push(r@),
            ..old(snapshot)@
        }),
{
    let ghost before = snapshot@;
    let partition = Partition { id, name: options.name, color: options.color, budget: budget_id };
    let copy = partition.clone();
    snapshot.partitions.push(partition);
    assert(snapshot@.partitions =~= before.partitions.push(copy@));
    copy
}

/// The partitions of the budget `budget`, in the order stored.
pub fn read(snapshot: &Snapshot, budget: &RecordId) -> (r: Vec<Partition>)
    ensures
        partition_views(r@) == snapshot@.partitions.filter(owned_by(budget@)),
{
    snapshot.list_partitions(budget)
}

/// The snapshot without the partition `partition` and without its
/// allocations.
pub open spec fn without_partition(snapshot: SnapshotView, partition: RecordIdView) -> SnapshotView {
    SnapshotView {
        partitions: snapshot.partitions.filter(partition_not_among(seq![partition])),
        allocations: snapshot.allocations.filter(allocated_outside(seq![partition])),
        ..snapshot
    }
}

/// Takes the partition `partition` out of the snapshot, and with it its
/// allocations.
pub fn delete(snapshot: &mut Snapshot, partition: &RecordId)
    ensures
        final(snapshot)@ == without_partition(old(snapshot)@, partition@),
{
    let mut gone: Vec<RecordId> = Vec::new();
    gone.push(partition.clone());
    assert(id_views(gone@) =~= seq![partition@]);
    snapshot.remove_partitions(&gone);
    snapshot.remove_allocations_of(&gone);
}

/// Deleting a partition leaves no allocation without its partition.
pub proof fn lemma_delete_keeps_references(snapshot: SnapshotView, partition: RecordIdView)
    requires
        snapshot.references_resolve(),
    ensures
        without_partition(snapshot, partition).references_resolve(),
{
    crate::store::lemma_partitions_leave_with_their_allocations(snapshot, seq![partition]);
}

} // verus!
