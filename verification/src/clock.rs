use vstd::prelude::*;

verus! {

/// Wall-clock time of the local time zone as whole seconds since the Unix
/// epoch and the nanoseconds past that second.
///
/// Calls `chrono::Local::now` and reads `DateTime::timestamp` and
/// `DateTime::timestamp_subsec_nanos`. The result depends on the clock, so the
/// contract states nothing about it.
#[verifier::external_body]
fn now_parts() -> (r: (i64, u32)) {
    let t = chrono::Local::now();
    (t.timestamp(), t.timestamp_subsec_nanos())
}

/// Wall-clock time in nanoseconds since the Unix epoch.
pub(crate) fn now_nanos() -> (t: i128)
    ensures
        i64::MIN * 1_000_000_000 <= t <= i64::MAX * 1_000_000_000 + u32::MAX,
{
    let (secs, nanos) = now_parts();
    secs as i128 * 1_000_000_000 + nanos as i128
}

} // verus!

verus! {

/// Earliest second chrono can hold, in seconds since the Unix epoch
/// (January 1 of the year -262143, 00:00:00 UTC).
pub const CALENDAR_MIN_SECS: i64 = -8334601228800;

/// Latest second chrono can hold, in seconds since the Unix epoch
/// (December 31 of the year 262142, 23:59:59 UTC).
pub const CALENDAR_MAX_SECS: i64 = 8210266876799;

/// Earliest time chrono can hold, in nanoseconds since the Unix epoch.
pub const CALENDAR_MIN_NS: i128 = -8334601228800000000000;

/// Latest time chrono can hold, in nanoseconds since the Unix epoch.
pub const CALENDAR_MAX_NS: i128 = 8210266876799999999999;

/// `ns` is a time that chrono's calendar can hold.
pub open spec fn in_calendar(ns: i128) -> bool {
    CALENDAR_MIN_NS <= ns <= CALENDAR_MAX_NS
}

/// Local-time text of the time `secs` seconds and `nanos` nanoseconds after
/// the Unix epoch.
///
/// Calls `chrono::DateTime::from_timestamp`, converts the result with
/// `with_timezone(&chrono::Local)` and writes it with its `Display` impl
/// (`YYYY-MM-DD HH:MM:SS[.fraction] +HH:MM`). With `nanos` below one second,
/// `from_timestamp` gives `None` exactly for a second outside the dates chrono
/// holds (the years -262143 to 262142); the contract states that. The text
/// itself depends on the machine's time zone, so the contract states nothing
/// about it.
#[verifier::external_body]
pub(crate) fn local_time_text(secs: i64, nanos: u32) -> (r: Option<String>)
    requires
        nanos < 1_000_000_000,
    ensures
        r is Some <==> CALENDAR_MIN_SECS <= secs <= CALENDAR_MAX_SECS,
{
    match chrono::DateTime::from_timestamp(secs, nanos) {
        Some(t) => Some(t.with_timezone(&chrono::Local).to_string()),
        None => None,
    }
}

} // verus!
