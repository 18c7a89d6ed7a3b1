use vstd::prelude::*;

verus! {

/// The outcome of applying one log entry, reported back to the consumer.
pub struct ApplyResult {
    pub index: u64,
    pub success: bool,
}

/// What a worker learns while handling one dispatched entry.
pub enum WorkerEvent {
    /// The idempotency registry answered whether this epoch may take the
    /// message (a failed lookup counts as no).
    ClaimAnswered(bool),
    /// After recording the entry in the applied log, whether the record is
    /// there.
    RecordChecked(bool),
    /// Whether materializing the entry succeeded.
    MaterializeAnswered(bool),
}

/// What a worker does next with the entry.
pub enum WorkerAction {
    /// Drop the entry without counting it: another worker took it.
    Drop,
    /// Open a transaction and record the entry in the applied log.
    RecordApplied,
    /// Materialize the entry.
    Materialize,
    /// Count the entry as processed; nothing else happens.
    Count,
    /// Commit, report the result, and count the entry as processed.
    Commit(ApplyResult),
    /// Roll back, report the result, count an error and count the entry
    /// as processed.
    Rollback(ApplyResult),
}

/// The worker's decision on entry `index` after `event`.
pub fn worker_step(index: u64, event: WorkerEvent) -> (r: WorkerAction)
    ensures
        match event {
            WorkerEvent::ClaimAnswered(claimed) => if claimed { r is RecordApplied } else { r is Drop },
            WorkerEvent::RecordChecked(recorded) => if recorded { r is Materialize } else { r is Count },
            WorkerEvent::MaterializeAnswered(ok) => if ok {
                r matches WorkerAction::Commit(a) && a.index == index && a.success
            } else {
                r matches WorkerAction::Rollback(a) && a.index == index && !a.success
            },
        },
{
    match event {
        WorkerEvent::ClaimAnswered(claimed) => if claimed { WorkerAction::RecordApplied } else { WorkerAction::Drop },
        WorkerEvent::RecordChecked(recorded) => if recorded { WorkerAction::Materialize } else { WorkerAction::Count },
        WorkerEvent::MaterializeAnswered(ok) => if ok {
            WorkerAction::Commit(ApplyResult { index, success: true })
        } else {
            WorkerAction::Rollback(ApplyResult { index, success: false })
        },
    }
}

} // verus!
