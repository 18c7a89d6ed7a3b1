use vstd::prelude::*;
use crate::database::wal::WalEntry;

verus! {

/// Where a partition consumer starts reading: just after the later of the
/// materializer's applied index and the offset index's last index.
pub fn consumer_start(last_applied: u64, last_offset: u64) -> (r: u64)
    requires
        last_applied < u64::MAX,
        last_offset < u64::MAX,
    ensures
        r == (if last_applied > last_offset { last_applied } else { last_offset }) + 1,
{
    let m = if last_applied > last_offset { last_applied } else { last_offset };
    m + 1
}

/// The entries a consumer dispatches out of one read: in log order, those
/// routed to its partition (`routes[i]` is the partition of `entries[i]`),
/// stopping once `batch_size` have been taken (and after the first one
/// when `batch_size` is 0).
pub open spec fn dispatched(entries: Seq<WalEntry>, routes: Seq<usize>, partition_id: usize, batch_size: usize) -> Seq<WalEntry>
    decreases entries.len(),
{
    if entries.len() == 0 {
        Seq::empty()
    } else {
        let prev = dispatched(entries.drop_last(), routes.drop_last(), partition_id, batch_size);
        if prev.len() >= batch_size && prev.len() > 0 {
            prev
        } else if routes.last() == partition_id {
            prev.push(entries.last())
        } else {
            prev
        }
    }
}

/// Selects the entries a consumer dispatches out of one read; see
/// `dispatched`.
pub fn select_batch(entries: Vec<WalEntry>, routes: &[usize], partition_id: usize, batch_size: usize) -> (r: Vec<WalEntry>)
    requires
        routes@.len() == entries@.len(),
    ensures
        r@ == dispatched(entries@, routes@, partition_id, batch_size),
{
    let ghost all = entries@;
    let mut out: Vec<WalEntry> = Vec::new();
    let mut rest = entries;
    let mut k: usize = 0;
    while rest.len() > 0
        invariant
            k <= all.len(),
            routes@.len() == all.len(),
            rest@ == all.skip(k as int),
            out@ == dispatched(all.take(k as int), routes@.take(k as int), partition_id, batch_size),
        decreases rest.len(),
    {
        let e = rest.remove(0);
        assert(k < routes.len());
        proof {
            assert(e == all[k as int]);
            assert(all.take(k + 1).drop_last() =~= all.take(k as int));
            assert(routes@.take(k + 1).drop_last() =~= routes@.take(k as int));
            assert(rest@ =~= all.skip(k + 1));
        }
        if out.len() >= batch_size && out.len() > 0 {
        } else if routes[k] == partition_id {
            out.push(e);
        }
        k = k + 1;
    }
    proof {
        assert(all.take(k as int) =~= all);
        assert(routes@.take(k as int) =~= routes@);
    }
    out
}

/// Where the consumer reads next: `batch_size` further on.
pub fn advance_cursor(next_index: u64, batch_size: usize) -> (r: u64)
    requires
        next_index + batch_size <= u64::MAX,
    ensures
        r == next_index + batch_size,
{
    next_index + batch_size as u64
}

} // verus!
