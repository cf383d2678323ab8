//! The time of day.

use std::time::{Duration, SystemTime, SystemTimeError};
use vstd::prelude::*;

verus! {

/// `std::time::SystemTime`, carried as an opaque value.
#[verifier::external_type_specification]
#[verifier::external_body]
pub struct ExSystemTime(SystemTime);

/// `std::time::SystemTimeError`, carried as an opaque value.
#[verifier::external_type_specification]
#[verifier::external_body]
pub struct ExSystemTimeError(SystemTimeError);

/// `SystemTime::now` reads the clock, so nothing is said of what it returns.
pub assume_specification[ SystemTime::now ]() -> SystemTime
;

/// What `SystemTime::duration_since` gives for the time that has passed since 1970 began; `None`
/// where it gives an error, because the time is before that.
pub uninterp spec fn since_1970(now: SystemTime) -> Option<Duration>;

/// What `Duration::as_secs` gives.
pub uninterp spec fn whole_seconds(d: Duration) -> u64;

/// `SystemTime::duration_since` tells the time that has passed since 1970 began, or gives an error
/// where the given time is before that. Which, depends on the given time alone.
#[verifier::external_body]
fn since_epoch(now: SystemTime) -> (r: Result<Duration, SystemTimeError>)
    ensures
        match r {
            Ok(d) => since_1970(now) == Some(d),
            Err(_) => since_1970(now) is None,
        },
{
    now.duration_since(SystemTime::UNIX_EPOCH)
}

/// `Duration::as_secs` gives the whole seconds of a duration, which depend on the duration alone.
pub assume_specification[ Duration::as_secs ](d: &Duration) -> (r: u64)
    ensures
        r == whole_seconds(*d),
;

/// The seconds since 1970 began at a time, where it is not before that.
pub open spec fn reading(now: SystemTime) -> Option<u64> {
    match since_1970(now) {
        Some(d) => Some(whole_seconds(d)),
        None => None,
    }
}

/// A reading of the clock as a number of seconds: its lowest 64 bits, of which the first is the
/// sign; 0 where there is no reading.
pub open spec fn seconds(reading: Option<u64>) -> int {
    match reading {
        Some(s) => if s <= i64::MAX {
            s as int
        } else {
            s - 0x1_0000_0000_0000_0000
        },
        None => 0,
    }
}

/// A reading of the clock as a number of seconds.
pub fn seconds_of(reading: Option<u64>) -> (r: i64)
    ensures
        r == seconds(reading),
{
    match reading {
        Some(s) => {
            assert(s <= 0x7fff_ffff_ffff_ffff ==> (s as i64) == s) by (bit_vector);
            assert(s > 0x7fff_ffff_ffff_ffff ==> (s as i64) == s - 0x1_0000_0000_0000_0000)
                by (bit_vector);
            s as i64
        },
        None => 0,
    }
}

/// The seconds since 1970 began; 0 where the clock stands before that. It is what [`seconds_of`]
/// makes of the time that the clock shows.
pub fn unix_now() -> (r: i64)
    ensures
        exists|now: SystemTime| r == seconds(#[trigger] reading(now)),
{
    let now = SystemTime::now();
    let shown: Option<u64> = match since_epoch(now) {
        Ok(d) => Some(d.as_secs()),
        Err(_) => None,
    };
    assert(shown == reading(now));
    seconds_of(shown)
}

/// A reading that fits is kept as it is, one that does not wraps around, and no reading is 0.
pub proof fn readings_are_kept_where_they_fit(s: u64)
    ensures
        seconds(None) == 0,
        s <= i64::MAX ==> seconds(Some(s)) == s,
        i64::MIN <= seconds(Some(s)) <= i64::MAX,
        seconds(Some(s)) == s || seconds(Some(s)) + 0x1_0000_0000_0000_0000 == s,
{
}

/// A reading is the whole seconds of the time that has passed since 1970 began, where any has.
pub proof fn readings_are_whole_seconds(now: SystemTime)
    ensures
        since_1970(now) is None <==> reading(now) is None,
        since_1970(now) matches Some(d) ==> reading(now) == Some(whole_seconds(d)),
{
}

} // verus!
