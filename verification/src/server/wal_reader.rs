use vstd::prelude::*;
use crate::database::wal::WalEntry;

verus! {

/// The entries of `entries` whose index is at most `end`, in order.
pub open spec fn window_of(entries: Seq<WalEntry>, end: u64) -> Seq<WalEntry> {
    entries.filter(|e: WalEntry| e.index <= end)
}

/// Tracks how far readers of the log have come.
pub struct WalReader {
    pub watermark: u64,
}

impl WalReader {
    /// A reader at watermark 0.
    pub fn new() -> (r: WalReader)
        ensures
            r.watermark == 0,
    {
        WalReader { watermark: 0 }
    }

    /// The current watermark.
    pub fn snapshot_watermark(&self) -> (r: u64)
        ensures
            r == self.watermark,
    {
        self.watermark
    }

    /// Raises the watermark to `new_watermark`; it never goes down.
    pub fn advance_watermark(&mut self, new_watermark: u64)
        ensures
            final(self).watermark == if new_watermark > old(self).watermark { new_watermark } else { old(self).watermark },
    {
        if new_watermark > self.watermark {
            self.watermark = new_watermark;
        }
    }

    /// Of the entries read from `start`, those with index at most `end`.
    pub fn read_window(&self, entries: Vec<WalEntry>, end: u64) -> (r: Vec<WalEntry>)
        ensures
            r@ == window_of(entries@, end),
    {
        let ghost p = |e: WalEntry| e.index <= end;
        let ghost all = entries@;
        let mut out: Vec<WalEntry> = Vec::new();
        let mut rest = entries;
        let ghost mut k: int = 0;
        while rest.len() > 0
            invariant
                0 <= k <= all.len(),
                rest@ == all.skip(k),
                p == (|e: WalEntry| e.index <= end),
                out@ == all.take(k).filter(p),
            decreases rest.len(),
        {
            let e = rest.remove(0);
            proof {
                assert(e == all[k]);
                assert(all.take(k + 1) =~= all.take(k).push(all[k]));
                all.take(k).lemma_filter_push(all[k], p);
                assert(rest@ =~= all.skip(k + 1));
                k = k + 1;
            }
            if e.index <= end {
                out.push(e);
            }
        }
        proof {
            assert(all.take(k) =~= all);
        }
        out
    }

    /// The first `count` of the entries read from `start` (all of them when
    /// there are fewer).
    pub fn read_exact(&self, entries: Vec<WalEntry>, count: usize) -> (r: Vec<WalEntry>)
        ensures
            r@ == if count < entries@.len() { entries@.subrange(0, count as int) } else { entries@ },
    {
        let mut out = entries;
        out.truncate(count);
        out
    }
}

} // verus!
