use vstd::prelude::*;
use dashmap::DashMap;
use crate::server::config::RmpConfig;
use crate::server::error::RmpError;
use crate::server::fencing::FencingToken;

verus! {

/// A range of the log and the node (and epoch) that owns it.
pub struct Partition {
    pub id: usize,
    pub start_index: u64,
    pub end_index: u64,
    pub owner_epoch: u64,
    pub owner_node: String,
}

/// A partition as plain values.
pub struct PartitionModel {
    pub id: usize,
    pub start_index: u64,
    pub end_index: u64,
    pub owner_epoch: u64,
    pub owner_node: Seq<char>,
}

impl View for Partition {
    type V = PartitionModel;

    open spec fn view(&self) -> PartitionModel {
        PartitionModel {
            id: self.id,
            start_index: self.start_index,
            end_index: self.end_index,
            owner_epoch: self.owner_epoch,
            owner_node: self.owner_node@,
        }
    }
}

impl Partition {
    /// A field-by-field copy.
    pub fn duplicate(&self) -> (r: Partition)
        ensures
            r@ == self@,
    {
        Partition {
            id: self.id,
            start_index: self.start_index,
            end_index: self.end_index,
            owner_epoch: self.owner_epoch,
            owner_node: self.owner_node.clone(),
        }
    }
}

#[verifier::external_type_specification]
#[verifier::external_body]
#[verifier::reject_recursive_types(K)]
#[verifier::reject_recursive_types(V)]
#[verifier::reject_recursive_types(S)]
pub struct ExDashMap<K, V, S>(DashMap<K, V, S>);

/// The partitions a table holds, by id.
pub uninterp spec fn partition_table(m: DashMap<usize, Partition>) -> Map<usize, PartitionModel>;

/// Calls `DashMap::new`. Claimed: the table is empty.
#[verifier::external_body]
fn table_new() -> (r: DashMap<usize, Partition>)
    ensures
        partition_table(r).dom() == Set::<usize>::empty(),
{
    DashMap::new()
}

/// Calls `DashMap::insert`. Claimed: afterwards the table maps `id` to
/// `p` and is otherwise unchanged.
#[verifier::external_body]
fn table_insert(m: &mut DashMap<usize, Partition>, id: usize, p: Partition)
    ensures
        partition_table(*final(m)) == partition_table(*old(m)).insert(id, p@),
{
    m.insert(id, p);
}

/// Calls `DashMap::get` and copies the partition out. Claimed: the result
/// is the partition the table maps `id` to, if any.
#[verifier::external_body]
fn table_get(m: &DashMap<usize, Partition>, id: usize) -> (r: Option<Partition>)
    ensures
        r matches Some(p) ==> partition_table(*m).contains_key(id) && p@ == partition_table(*m)[id],
        r is None ==> !partition_table(*m).contains_key(id),
{
    match m.get(&id) {
        Some(p) => Some(p.duplicate()),
        None => None,
    }
}

/// The partition a manager starts with: unowned, empty range.
pub open spec fn fresh_partition(id: usize) -> PartitionModel {
    PartitionModel { id, start_index: 0, end_index: 0, owner_epoch: 0, owner_node: Seq::empty() }
}

/// Fencing: a token whose claim on a partition succeeds owns it; a token
/// with an epoch no newer than the owner's cannot claim it.
pub proof fn lemma_claim_fences(table: Map<usize, PartitionModel>, id: usize, epoch: u64, node: Seq<char>, start: u64, end: u64)
    requires
        table.contains_key(id),
    ensures
        table[id].owner_epoch < epoch ==> ({
            let claimed = table.insert(id, PartitionModel {
                owner_epoch: epoch,
                owner_node: node,
                start_index: start,
                end_index: end,
                ..table[id]
            });
            claimed.contains_key(id) && claimed[id].owner_epoch == epoch && claimed[id].owner_node == node
        }),
{
}

/// The ranges `assign_work` hands out follow one another without gaps or
/// overlaps.
pub proof fn lemma_assignments_contiguous(last_applied: u64, per: int, i: int)
    requires
        0 <= i,
        per >= 0,
    ensures
        ((last_applied + i * per + 1) + per - 1) + 1 == last_applied + (i + 1) * per + 1,
{
    assert((i + 1) * per == i * per + per) by (nonlinear_arith);
}

/// The partitions of the cluster and their owners.
pub struct PartitionManager {
    pub partitions: DashMap<usize, Partition>,
    pub config: RmpConfig,
}

impl PartitionManager {
    /// The partition table.
    pub open spec fn table(&self) -> Map<usize, PartitionModel> {
        partition_table(self.partitions)
    }

    /// A manager with `partition_count` fresh, unowned partitions.
    pub fn new(config: &RmpConfig) -> (r: PartitionManager)
        ensures
            r.config.same_as(config),
            r.table() == Map::new(|k: usize| k < config.partition_count, |k: usize| fresh_partition(k)),
    {
        let mut partitions = table_new();
        let mut i: usize = 0;
        while i < config.partition_count
            invariant
                i <= config.partition_count,
                partition_table(partitions) == Map::new(|k: usize| k < i, |k: usize| fresh_partition(k)),
            decreases config.partition_count - i,
        {
            let p = Partition { id: i, start_index: 0, end_index: 0, owner_epoch: 0, owner_node: String::new() };
            table_insert(&mut partitions, i, p);
            assert(partition_table(partitions) =~= Map::new(|k: usize| k < i + 1, |k: usize| fresh_partition(k)));
            i = i + 1;
        }
        PartitionManager { partitions, config: config.duplicate() }
    }

    /// Claims a partition for `token` over the log range `start..=end`:
    /// refused with `Partition("Partition not found")` for an unknown id,
    /// and with `StaleEpoch(owner epoch, token epoch)` unless the token's
    /// epoch is newer than the owner's.
    pub fn claim(&mut self, partition_id: usize, token: &FencingToken, start: u64, end: u64) -> (r: Result<(), RmpError>)
        ensures
            final(self).config == old(self).config,
            !old(self).table().contains_key(partition_id) ==> (r matches Err(RmpError::Partition(s))
                && s@ == "Partition not found"@ && final(self).table() == old(self).table()),
            old(self).table().contains_key(partition_id) && old(self).table()[partition_id].owner_epoch >= token.epoch
                ==> (r matches Err(RmpError::StaleEpoch(a, b)) && a == old(self).table()[partition_id].owner_epoch
                && b == token.epoch && final(self).table() == old(self).table()),
            old(self).table().contains_key(partition_id) && old(self).table()[partition_id].owner_epoch < token.epoch
                ==> r is Ok && final(self).table() == old(self).table().insert(partition_id, PartitionModel {
                    owner_epoch: token.epoch,
                    owner_node: token.node_id@,
                    start_index: start,
                    end_index: end,
                    ..old(self).table()[partition_id]
                }),
    {
        let mut partition = match table_get(&self.partitions, partition_id) {
            Some(p) => p,
            None => return Err(RmpError::Partition(String::from_str("Partition not found"))),
        };
        if partition.owner_epoch >= token.epoch {
            return Err(RmpError::StaleEpoch(partition.owner_epoch, token.epoch));
        }
        partition.owner_epoch = token.epoch;
        partition.owner_node = token.node_id.clone();
        partition.start_index = start;
        partition.end_index = end;
        table_insert(&mut self.partitions, partition_id, partition);
        Ok(())
    }

    /// Gives a partition up: refused with `Partition("Partition not found")`
    /// for an unknown id and with `StaleEpoch` unless the token's epoch is
    /// the owner's; the partition is then unowned.
    pub fn release(&mut self, partition_id: usize, token: &FencingToken) -> (r: Result<(), RmpError>)
        ensures
            final(self).config == old(self).config,
            !old(self).table().contains_key(partition_id) ==> (r matches Err(RmpError::Partition(s))
                && s@ == "Partition not found"@ && final(self).table() == old(self).table()),
            old(self).table().contains_key(partition_id) && old(self).table()[partition_id].owner_epoch != token.epoch
                ==> (r matches Err(RmpError::StaleEpoch(a, b)) && a == old(self).table()[partition_id].owner_epoch
                && b == token.epoch && final(self).table() == old(self).table()),
            old(self).table().contains_key(partition_id) && old(self).table()[partition_id].owner_epoch == token.epoch
                ==> r is Ok && final(self).table() == old(self).table().insert(partition_id, PartitionModel {
                    owner_epoch: 0,
                    owner_node: Seq::empty(),
                    ..old(self).table()[partition_id]
                }),
    {
        let mut partition = match table_get(&self.partitions, partition_id) {
            Some(p) => p,
            None => return Err(RmpError::Partition(String::from_str("Partition not found"))),
        };
        if partition.owner_epoch != token.epoch {
            return Err(RmpError::StaleEpoch(partition.owner_epoch, token.epoch));
        }
        partition.owner_epoch = 0;
        partition.owner_node = String::new();
        table_insert(&mut self.partitions, partition_id, partition);
        Ok(())
    }

    /// Whether `token` owns the partition: same epoch and same node.
    pub fn is_owner(&self, partition_id: usize, token: &FencingToken) -> (r: bool)
        ensures
            r == (self.table().contains_key(partition_id)
                && self.table()[partition_id].owner_epoch == token.epoch
                && self.table()[partition_id].owner_node == token.node_id@),
    {
        match table_get(&self.partitions, partition_id) {
            Some(p) => p.owner_epoch == token.epoch && p.owner_node == token.node_id,
            None => false,
        }
    }

    /// Splits the next `consumer_batch_size` log indices after
    /// `last_applied` evenly over the partitions: partition `i` gets
    /// `start..=start + per - 1` with `start = last_applied + i * per + 1`.
    pub fn assign_work(&self, last_applied: u64) -> (r: Vec<(usize, u64, u64)>)
        requires
            self.config.partition_count > 0,
            last_applied + (self.config.consumer_batch_size / self.config.partition_count) * self.config.partition_count + 1 <= u64::MAX,
        ensures
            r@.len() == self.config.partition_count,
            forall|i: int| 0 <= i < r@.len() ==> {
                let per = self.config.consumer_batch_size as int / self.config.partition_count as int;
                let start = last_applied + i * per + 1;
                &&& (#[trigger] r@[i]).0 == i
                &&& r@[i].1 == start
                &&& r@[i].2 == start + per - 1
            },
    {
        let total_work = self.config.consumer_batch_size as u64;
        let count = self.config.partition_count;
        let work_per_partition = total_work / count as u64;
        let mut assignments: Vec<(usize, u64, u64)> = Vec::new();
        let mut i: usize = 0;
        proof {
            assert(work_per_partition == self.config.consumer_batch_size / self.config.partition_count);
        }
        while i < count
            invariant
                i <= count,
                count == self.config.partition_count,
                count > 0,
                total_work == self.config.consumer_batch_size,
                work_per_partition == total_work / (count as u64),
                last_applied + work_per_partition * count + 1 <= u64::MAX,
                assignments@.len() == i,
                forall|j: int| 0 <= j < i ==> {
                    let per = self.config.consumer_batch_size as int / self.config.partition_count as int;
                    let start = last_applied + j * per + 1;
                    &&& (#[trigger] assignments@[j]).0 == j
                    &&& assignments@[j].1 == start
                    &&& assignments@[j].2 == start + per - 1
                },
            decreases count - i,
        {
            proof {
                assert((i as int) * work_per_partition + work_per_partition <= work_per_partition * count) by (nonlinear_arith)
                    requires
                        i < count;
            }
            let start = last_applied + (i as u64 * work_per_partition) + 1;
            let end = start + work_per_partition - 1;
            assignments.push((i, start, end));
            i = i + 1;
        }
        assignments
    }
}

} // verus!
