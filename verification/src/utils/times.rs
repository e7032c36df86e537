//! Wall-clock time.

use vstd::prelude::*;

verus! {

/// Wraps `std::time::SystemTime::now`: the milliseconds from the Unix epoch to the time
/// that the system clock shows; nothing where it stands before the epoch. What the clock
/// shows is not spoken of.
#[verifier::external_body]
fn clock_ms() -> (reading: Option<u64>) {
    let since = std::time::SystemTime::now().duration_since(std::time::UNIX_EPOCH);
    since.ok().map(|duration| duration.as_millis() as u64)
}

/// Whether a reading of the system clock can give this.
pub closed spec fn clock_gives(reading: Option<u64>) -> bool {
    call_ensures(clock_ms, (), reading)
}

/// Whether this is a time that the system clock can show: a clock that stands before the
/// Unix epoch shows the epoch.
pub open spec fn shown(now: u64) -> bool {
    clock_gives(Some(now)) || (clock_gives(None) && now == 0)
}

/// The time that a reading of the system clock stands for.
pub fn time_of(reading: Option<u64>) -> (now: u64)
    ensures
        now == match reading {
            Some(ms) => ms,
            None => 0,
        },
{
    match reading {
        Some(ms) => ms,
        None => 0,
    }
}

/// The current time in milliseconds since the Unix epoch.
pub fn now_ms() -> (now: u64)
    ensures
        shown(now),
{
    time_of(clock_ms())
}

/// The whole seconds from `old_time` to `now`, both in milliseconds; zero where
/// `old_time` is the later one.
pub open spec fn elapsed_seconds(now: u64, old_time: u64) -> int {
    if now >= old_time {
        (now - old_time) / 1000
    } else {
        0
    }
}

/// The whole seconds from `old_time` to `now`, both in milliseconds; zero where
/// `old_time` is the later one.
pub fn gap_seconds(now: u64, old_time: u64) -> (seconds: u64)
    ensures
        seconds == elapsed_seconds(now, old_time),
{
    now.saturating_sub(old_time) / 1000
}

/// The whole seconds since `old_time`, which is in milliseconds.
pub fn time_gap(old_time: u64) -> (seconds: u64)
    ensures
        exists|now: u64| shown(now) && seconds == #[trigger] elapsed_seconds(now, old_time),
{
    gap_seconds(now_ms(), old_time)
}

/// A gap holds as many seconds as fit into it whole; there is none from a later time to
/// an earlier one.
pub proof fn law_gaps_hold_whole_seconds(now: u64, old_time: u64)
    ensures
        now < old_time ==> elapsed_seconds(now, old_time) == 0,
        now >= old_time ==> 1000 * elapsed_seconds(now, old_time) <= now - old_time < 1000 * (
        elapsed_seconds(now, old_time) + 1),
{
}

/// The times that the system clock shows are its readings, and the epoch where it stands
/// before that; nothing else is.
pub proof fn law_shown_times_are_readings(now: u64)
    ensures
        shown(now) <==> clock_gives(Some(now)) || (clock_gives(None) && now == 0),
{
}

} // verus!
