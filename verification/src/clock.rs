//! The current time, read through the `chrono` crate, and the stamp that a
//! launch gets from it.

use vstd::prelude::*;
use crate::project::Timestamp;

verus! {

/// The current moment in UTC.
///
/// Trusted: the body calls `chrono::Utc::now` and takes the result apart with
/// `DateTime::timestamp` and `DateTime::timestamp_subsec_nanos`. `now` builds
/// its result from the time that has passed since the Unix epoch, so the
/// seconds are not negative and the nanoseconds stay below one second; that
/// is all the contract claims. `now` does not return on a machine whose clock
/// is set before 1970.
#[verifier::external_body]
pub(crate) fn utc_now() -> (t: Timestamp)
    ensures
        t.secs >= 0,
        t.nanos < 1_000_000_000,
{
    let now = chrono::Utc::now();
    Timestamp { secs: now.timestamp(), nanos: now.timestamp_subsec_nanos() }
}

/// The moment `t` as nanoseconds since the Unix epoch, or 0 where that number
/// does not fit into 64 bits.
pub open spec fn stamp_of(t: Timestamp) -> int {
    let n = t.secs * 1_000_000_000 + t.nanos;
    if i64::MIN <= n <= i64::MAX {
        n
    } else {
        0
    }
}

/// The moment `t` as nanoseconds since the Unix epoch, or 0 where that number
/// does not fit.
pub fn launch_stamp(t: Timestamp) -> (n: i64)
    ensures
        n == stamp_of(t),
{
    let wide: i128 = (t.secs as i128) * 1_000_000_000 + (t.nanos as i128);
    if wide < i64::MIN as i128 || wide > i64::MAX as i128 {
        0
    } else {
        wide as i64
    }
}

} // verus!
