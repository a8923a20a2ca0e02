//! Time, as the servers read it off a clock that never goes back.

use vstd::prelude::*;

verus! {

/// A moment: the nanoseconds that have passed since the server's clock was started.
pub type Moment = u64;

/// Nanoseconds in a second.
pub const SECOND: u64 = 1_000_000_000;

/// Nanoseconds in a millisecond.
pub const MILLISECOND: u64 = 1_000_000;

/// The nanoseconds between two moments; none if the first is not the earlier one.
pub open spec fn elapsed(since: Moment, now: Moment) -> nat {
    if since <= now {
        (now - since) as nat
    } else {
        0
    }
}

/// The time between two moments leads from the earlier one to the later one; time that goes back
/// does not count.
pub proof fn law_time_adds_up(since: Moment, now: Moment)
    ensures
        since <= now ==> since + elapsed(since, now) == now,
        since >= now ==> elapsed(since, now) == 0,
{
}

/// The nanoseconds between two moments; none if the first is not the earlier one.
pub fn time_since(since: Moment, now: Moment) -> (d: u64)
    ensures
        d == elapsed(since, now),
{
    if since <= now {
        now - since
    } else {
        0
    }
}

} // verus!
