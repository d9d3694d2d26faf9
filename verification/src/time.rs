//! The clocks of the system.
//!
//! What a clock shows is up to the machine, so nothing is said of it. What follows from
//! a reading is.

use std::time::{Duration, Instant, SystemTime, SystemTimeError};
use vstd::prelude::*;

verus! {

/// `std::time::SystemTime`: a point in time. Nothing here looks inside.
#[verifier::external_type_specification]
#[verifier::external_body]
pub struct ExSystemTime(SystemTime);

/// `std::time::SystemTimeError`: one point in time lies behind the other.
#[verifier::external_type_specification]
#[verifier::external_body]
pub struct ExSystemTimeError(SystemTimeError);

/// `std::time::Instant`: a point of the monotone clock. Nothing here looks inside.
#[verifier::external_type_specification]
#[verifier::external_body]
pub struct ExInstant(Instant);

/// How many nanoseconds a duration lasts.
pub uninterp spec fn nanos(d: Duration) -> nat;

/// How many nanoseconds behind the start of 1970 a point in time lies, nothing if it
/// lies before.
pub uninterp spec fn nanos_since_1970(t: SystemTime) -> Option<nat>;

/// How many nanoseconds one point of the monotone clock lies behind another, zero if it
/// lies before.
pub uninterp spec fn nanos_between(later: Instant, earlier: Instant) -> nat;

/// Reads the clock with `SystemTime::now`. Nothing is said of what it shows.
#[verifier::external_body]
pub(crate) fn system_now() -> SystemTime {
    SystemTime::now()
}

/// The time since the start of 1970 with `SystemTime::duration_since`, an error for
/// earlier times: a function of the point in time.
#[verifier::external_body]
pub(crate) fn since_1970(t: &SystemTime) -> (r: Result<Duration, SystemTimeError>)
    ensures
        r is Ok <==> nanos_since_1970(*t) is Some,
        r matches Ok(d) ==> nanos_since_1970(*t) == Some(nanos(d)),
{
    t.duration_since(SystemTime::UNIX_EPOCH)
}

/// The whole seconds of a duration with `Duration::as_secs`.
#[verifier::external_body]
pub(crate) fn whole_seconds(d: &Duration) -> (secs: u64)
    ensures
        secs == nanos(*d) / 1_000_000_000,
{
    d.as_secs()
}

/// Reads the monotone clock with `Instant::now`. Nothing is said of what it shows, but
/// that no time has passed from the point that was read to that same point.
#[verifier::external_body]
pub(crate) fn instant_now() -> (i: Instant)
    ensures
        nanos_between(i, i) == 0,
{
    Instant::now()
}

/// The time from a point until now with `Instant::elapsed`. Nothing is said of when
/// now is.
#[verifier::external_body]
pub(crate) fn elapsed_since(start: &Instant) -> (d: Duration)
    ensures
        exists|now: Instant| nanos(d) == #[trigger] nanos_between(now, *start),
{
    start.elapsed()
}

/// The whole milliseconds of a duration with `Duration::as_millis`.
#[verifier::external_body]
pub(crate) fn whole_millis(d: &Duration) -> (ms: u128)
    ensures
        ms == nanos(*d) / 1_000_000,
{
    d.as_millis()
}

} // verus!
