use vstd::prelude::*;
use vstd::string::StringSliceAdditionalSpecFns;
use crate::bytes::{hex_chars, hex_string};
use crate::database::error::DatabaseError;

verus! {

/// The capacity check of a queue holding `count` unacknowledged messages:
/// refused with `Backpressure("Queue <hex id> at capacity")` once the count
/// reaches `max_queue_capacity`.
pub fn check_capacity(count: i64, max_queue_capacity: u64, queue_id: &[u8]) -> (r: Result<(), DatabaseError>)
    ensures
        (count as u64) >= max_queue_capacity ==> (r matches Err(DatabaseError::Backpressure(s))
            && s@ == "Queue "@ + hex_chars(queue_id@) + " at capacity"@),
        (count as u64) < max_queue_capacity ==> r is Ok,
{
    if count as u64 >= max_queue_capacity {
        let mut s = String::from_str("Queue ");
        let h = hex_string(queue_id);
        s.append(h.as_str());
        s.append(" at capacity");
        return Err(DatabaseError::Backpressure(s));
    }
    Ok(())
}

} // verus!
