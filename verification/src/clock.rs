//! The wall clock, read as milliseconds or nanoseconds since the Unix
//! epoch.

use vstd::prelude::*;
use std::time::{Duration, SystemTime};

verus! {

#[verifier::external_type_specification]
#[verifier::external_body]
pub struct ExSystemTime(SystemTime);

/// `SystemTime::now`: the machine's clock as it reads now.  Nothing is said
/// of which instant that is.
#[verifier::external_body]
fn system_now() -> SystemTime {
    SystemTime::now()
}

/// `SystemTime::duration_since(UNIX_EPOCH)`: how long after the Unix epoch
/// `t` lies; `None` where `t` lies before the epoch, the case in which std
/// returns an error.  Nothing is said of the length.
#[verifier::external_body]
fn since_epoch(t: &SystemTime) -> Option<Duration> {
    t.duration_since(std::time::UNIX_EPOCH).ok()
}

/// `Duration::as_millis`: the whole milliseconds in `d`.  Nothing is said of
/// the value beyond its type.
#[verifier::external_body]
fn whole_millis(d: &Duration) -> u128 {
    d.as_millis()
}

/// `Duration::as_nanos`: the whole nanoseconds in `d`.  Nothing is said of
/// the value beyond its type.
#[verifier::external_body]
fn whole_nanos(d: &Duration) -> u128 {
    d.as_nanos()
}

/// The clock in nanoseconds since the Unix epoch; `None` when it reads a
/// time before the epoch, or one too far after it for an `i64`.
pub(crate) fn now_nanos() -> (r: Option<i64>)
    ensures
        r matches Some(t) ==> t >= 0,
{
    let now = system_now();
    match since_epoch(&now) {
        Some(d) => {
            let n = whole_nanos(&d);
            if n <= 0x7fff_ffff_ffff_ffffu128 {
                Some(n as i64)
            } else {
                None
            }
        },
        None => None,
    }
}

/// The clock in milliseconds since the Unix epoch; `None` when it reads a
/// time before the epoch, or one too far after it for an `i64`.
pub(crate) fn now_millis() -> (r: Option<i64>)
    ensures
        r matches Some(t) ==> t >= 0,
{
    let now = system_now();
    match since_epoch(&now) {
        Some(d) => {
            let m = whole_millis(&d);
            if m <= 0x7fff_ffff_ffff_ffffu128 {
                Some(m as i64)
            } else {
                None
            }
        },
        None => None,
    }
}

} // verus!
