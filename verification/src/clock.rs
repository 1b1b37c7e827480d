//! The wall clock, in milliseconds.

use vstd::prelude::*;

verus! {

/// Reads how much time has passed since the Unix epoch, as seconds and
/// nanoseconds, with `elapsed` of std's `SystemTime::UNIX_EPOCH`. There is no
/// answer if the clock stands before the epoch.
///
/// The contract claims only that there is less than one second of nanoseconds:
/// what time it is, is not known beforehand.
#[verifier::external_body]
fn since_epoch() -> (r: Option<(u64, u32)>)
    ensures
        r is Some ==> r->Some_0.1 < 1_000_000_000,
{
    let elapsed = std::time::SystemTime::UNIX_EPOCH.elapsed().ok()?;
    Some((elapsed.as_secs(), elapsed.subsec_nanos()))
}

/// A reading of the clock in milliseconds since the Unix epoch; zero if the clock
/// stands before it. A count that 64 bits do not hold starts again from zero.
pub open spec fn millis_of(reading: Option<(u64, u32)>) -> int {
    match reading {
        Some((seconds, nanos)) => (seconds * 1000 + nanos as int / 1_000_000)
            % 0x1_0000_0000_0000_0000,
        None => 0,
    }
}

/// Converts a reading of the clock to milliseconds.
pub fn reading_millis(reading: Option<(u64, u32)>) -> (r: u64)
    ensures
        r == millis_of(reading),
{
    match reading {
        Some((seconds, nanos)) => {
            let total: u128 = seconds as u128 * 1000 + (nanos / 1_000_000) as u128;
            let low: u128 = total % 0x1_0000_0000_0000_0000;
            low as u64
        },
        None => 0,
    }
}

/// The milliseconds since the Unix epoch.
pub fn now_ms() -> (r: u64)
    ensures
        exists|reading: Option<(u64, u32)>| r == #[trigger] millis_of(reading),
{
    let reading = since_epoch();
    reading_millis(reading)
}

/// Until 64 bits are full, a second counts a thousand, a nanosecond a millionth, and
/// what is not a whole millisecond nothing.
pub proof fn law_milliseconds_of_a_reading(seconds: u64, nanos: u32)
    requires
        seconds * 1000 + 4295 <= u64::MAX,
    ensures
        millis_of(Some((seconds, nanos))) * 1_000_000 <= seconds * 1_000_000_000 + nanos,
        seconds * 1_000_000_000 + nanos < (millis_of(Some((seconds, nanos))) + 1) * 1_000_000,
        millis_of(None) == 0,
{
    let total = seconds * 1000 + nanos as int / 1_000_000;
    assert(total % 0x1_0000_0000_0000_0000 == total);
}

/// A reading is counted in whole milliseconds, and the count starts again from zero when
/// 64 bits are full. A clock that stands before the epoch reads zero.
pub proof fn law_readings_are_counted_in_milliseconds(reading: Option<(u64, u32)>, r: u64)
    requires
        call_ensures(reading_millis, (reading,), r),
    ensures
        reading matches Some((seconds, nanos)) ==> exists|rounds: int|
            #![trigger rounds * 0x1_0000_0000_0000_0000]
            seconds * 1000 + nanos as int / 1_000_000 == rounds * 0x1_0000_0000_0000_0000 + r,
        reading is None ==> r == 0,
{
    if let Some((seconds, nanos)) = reading {
        let total = seconds * 1000 + nanos as int / 1_000_000;
        let rounds = total / 0x1_0000_0000_0000_0000;
        assert(total == rounds * 0x1_0000_0000_0000_0000 + r);
    }
}

} // verus!
