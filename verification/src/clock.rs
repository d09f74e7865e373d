//! Wall-clock time, as the audit log writes it down.

use std::time::{Duration, UNIX_EPOCH};
use vstd::prelude::*;

verus! {

/// The seconds of a duration, as the shortest decimal text that reads back to the same
/// double-precision number.
pub uninterp spec fn seconds_text(secs: u64, nanos: u32) -> Seq<char>;

/// `SystemTime::elapsed` of the standard library, on the Unix epoch: the time since then as
/// whole seconds and the nanoseconds of the last one, or nothing where the clock stands before
/// it. What comes back rests on the clock; the nanoseconds are less than a second.
#[verifier::external_body]
pub(crate) fn read_clock() -> (res: Option<(u64, u32)>)
    ensures
        is_reading(res),
{
    UNIX_EPOCH.elapsed().ok().map(|d| (d.as_secs(), d.subsec_nanos()))
}

/// `Duration::as_secs_f64` of the standard library, and `format!` to write the number out; the
/// number between the two is a floating-point one, which no contract speaks of. The text is a
/// function of the duration alone, and `seconds_text` names it.
#[verifier::external_body]
fn write_seconds(secs: u64, nanos: u32) -> (res: String)
    requires
        nanos < 1_000_000_000,
    ensures
        res@ == seconds_text(secs, nanos),
{
    format!("{}", Duration::new(secs, nanos).as_secs_f64())
}

/// Whether this is what a reading of the clock can give. Only a reading shows it of a value.
pub closed spec fn clock_gives(reading: Option<(u64, u32)>) -> bool {
    call_ensures(read_clock, (), reading)
}

/// A reading is what the clock gave, and nothing else.
pub(crate) proof fn law_reading_comes_from_the_clock(reading: Option<(u64, u32)>)
    ensures
        clock_gives(reading) <==> call_ensures(read_clock, (), reading),
{
}

/// A reading of the clock has less than a second of nanoseconds.
pub proof fn law_clock_gives_readings(reading: Option<(u64, u32)>)
    requires
        clock_gives(reading),
    ensures
        reading matches Some(t) ==> t.1 < 1_000_000_000,
{
}

/// A reading is written down as its seconds, and a clock that stands before the Unix epoch as the
/// epoch itself.
pub proof fn law_reading_text(secs: u64, nanos: u32)
    ensures
        reading_text(Some((secs, nanos))) == seconds_text(secs, nanos),
        reading_text(None) == seconds_text(0, 0),
        is_reading(Some((secs, nanos))) <==> nanos < 1_000_000_000,
        is_reading(None),
{
}

/// Whether the parts of the reading are within their bounds.
pub open spec fn is_reading(reading: Option<(u64, u32)>) -> bool {
    reading matches Some(t) ==> t.1 < 1_000_000_000
}

/// The text for a reading of the clock: the seconds since the Unix epoch, and zero for a clock
/// that stands before it.
pub open spec fn reading_text(reading: Option<(u64, u32)>) -> Seq<char> {
    match reading {
        Some(t) => seconds_text(t.0, t.1),
        None => seconds_text(0, 0),
    }
}

/// Writes down a reading of the clock.
pub fn write_reading(reading: Option<(u64, u32)>) -> (res: String)
    requires
        is_reading(reading),
    ensures
        res@ == reading_text(reading),
{
    match reading {
        Some(t) => write_seconds(t.0, t.1),
        None => write_seconds(0, 0),
    }
}

/// The seconds since the Unix epoch, written down.
pub fn now_seconds() -> (res: String)
    ensures
        exists|reading: Option<(u64, u32)>|
            clock_gives(reading) && is_reading(reading) && res@ == #[trigger] reading_text(reading),
{
    write_reading(read_clock())
}

} // verus!
