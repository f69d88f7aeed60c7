//! The wall clock and the rendering of instants, both taken from `chrono`.
//! Instants are seconds since 1970-01-01 00:00:00 UTC.

use vstd::prelude::*;

verus! {

/// The latest instant the clock can report: the timestamp of
/// `chrono::DateTime::<Utc>::MAX_UTC`, the last second that a `DateTime`
/// holds.
pub const CLOCK_MAX: i64 = 8_210_266_876_799;

/// The earliest instant that is rendered: one day after the start of the
/// year 0.
pub const PRINT_MIN: i64 = -62_167_132_800;

/// The latest instant that is rendered: one day before the end of the year
/// 9999.
pub const PRINT_MAX: i64 = 253_402_214_399;

/// An instant that the clock can report.
pub open spec fn is_clock_reading(instant: int) -> bool {
    0 <= instant <= CLOCK_MAX
}

/// An instant whose year has four digits in every time zone, so that every
/// rendering of it exists.
pub open spec fn is_printable(instant: int) -> bool {
    PRINT_MIN <= instant <= PRINT_MAX
}

/// Reads the wall clock: `chrono::Utc::now`, then `DateTime::timestamp`.
/// Nothing is claimed of the instant but its range. `Utc::now` takes the
/// time since the Unix epoch, so the instant is not negative, and builds a
/// `DateTime` of it, which is none later than `MAX_UTC`. Two readings may
/// differ in any way.
#[verifier::external_body]
pub(crate) fn now_timestamp() -> (now: i64)
    ensures
        is_clock_reading(now as int),
{
    chrono::Utc::now().timestamp()
}

/// Renders an instant in the machine's time zone with
/// `DateTime::to_rfc2822`. The text depends on that time zone, so nothing
/// is claimed of it. `to_rfc2822` refuses years outside 0 to 9999; the
/// precondition keeps the local year inside them, a zone's offset being
/// less than a day.
#[verifier::external_body]
pub(crate) fn rfc2822_text(instant: i64) -> (text: String)
    requires
        is_printable(instant as int),
{
    chrono::DateTime::from_timestamp(instant, 0).unwrap().with_timezone(&chrono::Local).to_rfc2822()
}

/// Renders an instant in the machine's time zone as `DateTime` displays
/// itself. The text depends on that time zone, so nothing is claimed of it.
/// The precondition keeps the instant inside what a `DateTime` holds.
#[verifier::external_body]
pub(crate) fn local_text(instant: i64) -> (text: String)
    requires
        is_printable(instant as int),
{
    chrono::DateTime::from_timestamp(instant, 0).unwrap().with_timezone(&chrono::Local).to_string()
}

} // verus!
