//! The beat clock: audio position to musical time.
use vstd::prelude::*;

verus! {

/// Microbeats at `position_us` microseconds into a song played at `bpm_milli`
/// thousandths of a beat per minute: `position * bpm / 60`, rounded down.
pub open spec fn beat_of(position_us: int, bpm_milli: int) -> int {
    position_us * bpm_milli / 60_000
}

/// The beat (microbeats) at an audio position already rounded to the microsecond.
pub fn beat_at(position_us: u64, bpm_milli: u64) -> (r: i64)
    requires
        beat_of(position_us as int, bpm_milli as int) <= i64::MAX,
    ensures
        r == beat_of(position_us as int, bpm_milli as int),
{
    let p = position_us as u128;
    let b = bpm_milli as u128;
    assert(p * b <= u64::MAX as int * u64::MAX as int) by (nonlinear_arith)
        requires
            p <= u64::MAX,
            b <= u64::MAX,
    ;
    ((p * b) / 60_000) as i64
}

} // verus!
