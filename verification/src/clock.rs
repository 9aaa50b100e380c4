//! Reading the clocks of the machine.
use vstd::prelude::*;

use crate::text::{decimal_spec, owned, u64_decimal};

verus! {

/// A point in time of the monotonic clock.
#[verifier::external_type_specification]
#[verifier::external_body]
pub struct ExInstant(std::time::Instant);

/// Calls `std::time::Instant::now`: the current point of the monotonic clock.
#[verifier::external_body]
pub(crate) fn instant_now() -> (r: std::time::Instant) {
    std::time::Instant::now()
}

/// Calls `std::time::Instant::elapsed`: the time passed since `start`.
#[verifier::external_body]
pub(crate) fn instant_elapsed(start: &std::time::Instant) -> (r: core::time::Duration) {
    start.elapsed()
}

/// Calls `std::time::Duration::as_millis`: the whole milliseconds of a duration.
#[verifier::external_body]
pub(crate) fn duration_as_millis(d: &core::time::Duration) -> (r: u128) {
    d.as_millis()
}

/// A point in time of the system clock.
#[verifier::external_type_specification]
#[verifier::external_body]
pub struct ExSystemTime(std::time::SystemTime);

/// Calls `std::time::SystemTime::now`: the current time of the system clock.
#[verifier::external_body]
pub(crate) fn system_time_now() -> (r: std::time::SystemTime) {
    std::time::SystemTime::now()
}

/// Calls `SystemTime::duration_since` with `UNIX_EPOCH`: the time since the
/// epoch, or `None` where the clock reads a time before it.
#[verifier::external_body]
pub(crate) fn duration_since_epoch(t: &std::time::SystemTime) -> (r: Option<core::time::Duration>) {
    t.duration_since(std::time::UNIX_EPOCH).ok()
}

/// Calls `std::time::Duration::as_secs`: the whole seconds of a duration.
#[verifier::external_body]
pub(crate) fn duration_as_secs(d: &core::time::Duration) -> (r: u64) {
    d.as_secs()
}

/// The current time as whole seconds since the Unix epoch, in decimal
/// digits; `0` where the clock reads a time before the epoch.
pub fn now_timestamp() -> (r: String)
    ensures
        exists|n: nat| r@ == #[trigger] decimal_spec(n),
{
    let now = system_time_now();
    match duration_since_epoch(&now) {
        Some(d) => {
            let secs = duration_as_secs(&d);
            let r = u64_decimal(secs);
            assert(r@ == decimal_spec(secs as nat));
            r
        },
        None => {
            let r = owned("0");
            proof {
                reveal_strlit("0");
                assert(decimal_spec(0) =~= r@);
            }
            r
        },
    }
}

/// Calls `std::time::Duration::subsec_nanos`: the nanoseconds beyond the
/// whole seconds, fewer than a billion.
#[verifier::external_body]
pub(crate) fn duration_subsec_nanos(d: &core::time::Duration) -> (r: u32)
    ensures
        r < 1_000_000_000,
{
    d.subsec_nanos()
}

/// The RFC 3339 text that chrono writes for the instant `secs` seconds and
/// `nanos` nanoseconds after the Unix epoch, `None` where chrono has no
/// such instant.
pub uninterp spec fn rfc3339_of(secs: u64, nanos: u32) -> Option<Seq<char>>;

/// Calls chrono's `DateTime::<Utc>::from_timestamp` with `secs` (passed
/// `as i64`, as chrono's own `Utc::now` passes it) and `nanos`, and writes
/// the instant with `DateTime::to_rfc3339`.
#[verifier::external_body]
pub(crate) fn rfc3339_from_epoch(secs: u64, nanos: u32) -> (r: Option<String>)
    ensures
        match r {
            Some(t) => rfc3339_of(secs, nanos) == Some(t@),
            None => rfc3339_of(secs, nanos) is None,
        },
{
    chrono::DateTime::<chrono::Utc>::from_timestamp(secs as i64, nanos).map(|t| t.to_rfc3339())
}

/// The current time of the system clock as RFC 3339 text; `None` where the
/// clock reads a time before the Unix epoch.
pub fn utc_now_rfc3339() -> (r: Option<String>)
    ensures
        r matches Some(t) ==> exists|secs: u64, nanos: u32| #[trigger] rfc3339_of(secs, nanos) == Some(t@),
{
    let now = system_time_now();
    match duration_since_epoch(&now) {
        Some(d) => {
            let secs = duration_as_secs(&d);
            let nanos = duration_subsec_nanos(&d);
            let r = rfc3339_from_epoch(secs, nanos);
            proof {
                if r is Some {
                    assert(rfc3339_of(secs, nanos) == Some(r->Some_0@));
                }
            }
            r
        },
        None => None,
    }
}

} // verus!
