//! The wall clock, and spans of time.

use vstd::prelude::*;

use std::time::{Duration, SystemTime};

verus! {

/// A point on the wall clock, opaque here.
#[verifier::external_type_specification]
#[verifier::external_body]
pub struct ExSystemTime(SystemTime);

/// `SystemTime::now`: the machine's clock. Nothing is promised of the reading.
#[verifier::external_body]
fn system_now() -> SystemTime {
    SystemTime::now()
}

/// Now, as epoch milliseconds, saturating at `u64::MAX` and reading 0 before the epoch.
/// Nothing is promised of the instant: it is the machine's clock.
pub(crate) fn now_ms() -> (ms: u64)
    ensures
        is_epoch_ms(ms),
{
    system_time_ms(system_now())
}

/// `SystemTime::duration_since(UNIX_EPOCH)`: how long after the epoch `time` is, or `None`
/// before it.
#[verifier::external_body]
fn since_epoch(time: SystemTime) -> Option<Duration> {
    time.duration_since(std::time::UNIX_EPOCH).ok()
}

/// Epoch milliseconds of a span since the epoch, saturating, and 0 for a time before it.
pub open spec fn spec_epoch_millis(since: Option<nat>) -> u64 {
    match since {
        None => 0,
        Some(ms) => if ms <= u64::MAX { ms as u64 } else { u64::MAX },
    }
}

/// The whole milliseconds of a span, if there is one.
pub open spec fn millis_opt(since: Option<Duration>) -> Option<nat> {
    match since {
        Some(d) => Some(millis_of(d)),
        None => None,
    }
}

/// An instant as the library keeps it: the whole milliseconds of some span since the epoch,
/// saturating, or 0 for an instant before it.
pub open spec fn is_epoch_ms(ms: u64) -> bool {
    exists|since: Option<Duration>| ms == #[trigger] spec_epoch_millis(millis_opt(since))
}

/// Epoch milliseconds of `time`, saturating, and 0 before the epoch.
pub(crate) fn system_time_ms(time: SystemTime) -> (ms: u64)
    ensures
        exists|since: Option<Duration>| ms == #[trigger] spec_epoch_millis(millis_opt(since)),
{
    match since_epoch(time) {
        None => {
            assert(0u64 == spec_epoch_millis(millis_opt(None)));
            0
        },
        Some(since) => {
            let ms = crate::clock::duration_as_millis(&since);
            let out = if ms <= 0xffff_ffff_ffff_ffffu128 { ms as u64 } else { u64::MAX };
            assert(out == spec_epoch_millis(millis_opt(Some(since))));
            out
        },
    }
}

/// The whole milliseconds a span holds (`Duration::as_millis`).
pub uninterp spec fn millis_of(d: Duration) -> nat;

/// `Duration::from_millis`: a span of exactly `ms` milliseconds.
#[verifier::external_body]
pub(crate) fn duration_from_millis(ms: u64) -> (d: Duration)
    ensures
        millis_of(d) == ms,
{
    Duration::from_millis(ms)
}

/// `Duration::from_secs`: a span of exactly `secs` seconds, which is `1000 * secs` whole
/// milliseconds.
#[verifier::external_body]
pub(crate) fn duration_from_secs(secs: u64) -> (d: Duration)
    ensures
        millis_of(d) == 1000 * secs,
{
    Duration::from_secs(secs)
}

/// `Duration::as_millis`: the whole milliseconds in `d`.
#[verifier::external_body]
pub(crate) fn duration_as_millis(d: &Duration) -> (ms: u128)
    ensures
        ms == millis_of(*d),
{
    d.as_millis()
}


/// `Duration::as_secs`: the whole seconds in `d`, which are its whole milliseconds divided
/// by a thousand, rounded down.
#[verifier::external_body]
pub(crate) fn duration_as_secs(d: &Duration) -> (secs: u64)
    ensures
        secs == millis_of(*d) / 1000,
{
    d.as_secs()
}

} // verus!
