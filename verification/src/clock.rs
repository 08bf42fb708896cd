//! The wall clock, for the values the library stamps with the time.

use vstd::prelude::*;

verus! {

#[verifier::external_type_specification]
#[verifier::external_body]
pub struct ExSystemTime(std::time::SystemTime);

/// The current time. Calls `std::time::SystemTime::now`; the value is the
/// clock's, so nothing is claimed about it.
#[verifier::external_body]
pub(crate) fn clock_now() -> (t: std::time::SystemTime) {
    std::time::SystemTime::now()
}

/// How long after the Unix epoch `t` is, or `None` for a time before it. Calls
/// `std::time::SystemTime::duration_since`; nothing is claimed about the value.
#[verifier::external_body]
pub(crate) fn since_epoch(t: &std::time::SystemTime) -> (d: Option<std::time::Duration>) {
    t.duration_since(std::time::UNIX_EPOCH).ok()
}

/// The fractional part of `d`, in nanoseconds. Calls
/// `std::time::Duration::subsec_nanos`, which std documents as always below one
/// billion.
#[verifier::external_body]
pub(crate) fn subsec_nanos(d: &std::time::Duration) -> (n: u32)
    ensures
        n < 1_000_000_000,
{
    d.subsec_nanos()
}

/// The whole milliseconds in `d`. Calls `std::time::Duration::as_millis`.
#[verifier::external_body]
pub(crate) fn as_millis(d: &std::time::Duration) -> (ms: u128) {
    d.as_millis()
}

} // verus!
