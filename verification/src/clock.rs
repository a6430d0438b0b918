//! Moments and durations of `std::time`.

use vstd::prelude::*;

verus! {

/// `std::time::SystemTime`, opaque: the moment that it stands for is named by
/// `epoch_nanos`.
#[verifier::external_type_specification]
#[verifier::external_body]
pub struct ExSystemTime(std::time::SystemTime);

/// The nanoseconds from the Unix epoch to a moment, negative before the epoch.
pub uninterp spec fn epoch_nanos(t: std::time::SystemTime) -> int;

/// The nanoseconds that a duration lasts.
pub uninterp spec fn nanos_of(d: std::time::Duration) -> nat;

/// `SystemTime::now`. Nothing is promised of what the clock says.
pub assume_specification[ std::time::SystemTime::now ]() -> std::time::SystemTime;

/// `SystemTime::duration_since` the Unix epoch: the time from it to `t`, nothing
/// where `t` lies before it.
#[verifier::external_body]
pub(crate) fn since_epoch(t: std::time::SystemTime) -> (r: Option<std::time::Duration>)
    ensures
        match r {
            Some(d) => nanos_of(d) == epoch_nanos(t),
            None => epoch_nanos(t) < 0,
        },
{
    t.duration_since(std::time::UNIX_EPOCH).ok()
}

/// `Duration::as_millis`: the whole milliseconds in a duration.
pub assume_specification[ std::time::Duration::as_millis ](d: &std::time::Duration) -> (r: u128)
    ensures
        r == nanos_of(*d) / 1_000_000,
;

/// `Duration::from_secs`: a duration of that many whole seconds.
pub assume_specification[ std::time::Duration::from_secs ](secs: u64) -> (r: std::time::Duration)
    ensures
        nanos_of(r) == secs * 1_000_000_000,
;

} // verus!
