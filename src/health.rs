//! Health economy constants and the end-of-frame clamp.
use vstd::prelude::*;

verus! {

pub const MAX_HEALTH: i64 = 500;
pub const CORRECT_HEALTH_GAIN: i64 = 15;
pub const HEALTH_LOSS_MISS: i64 = 50;
pub const HEALTH_LOSS_INCORRECT: i64 = 50;
pub const HEALTH_LOSS_LASER: i64 = 75;

/// `h` clamped into [0, 500].
pub open spec fn clamp_health(h: int) -> int {
    if h < 0 {
        0
    } else if h > MAX_HEALTH {
        MAX_HEALTH as int
    } else {
        h
    }
}

/// Clamps a frame's running health into [0, 500].
pub fn clamp(h: i128) -> (r: i64)
    ensures
        r == clamp_health(h as int),
        0 <= r <= MAX_HEALTH,
{
    if h < 0 {
        0
    } else if h > MAX_HEALTH as i128 {
        MAX_HEALTH
    } else {
        h as i64
    }
}

} // verus!
