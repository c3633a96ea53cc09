//! Score and combo formulas, and the running tally of a run.
use vstd::prelude::*;
use crate::lane::Lane;

verus! {

/// Microbeats in one beat.
pub const BEAT: i64 = 1_000_000;

/// The combo multiplier 1.0, in millionths.
pub const COMBO_ONE: u64 = 1_000_000;

/// The largest combo multiplier, 4.0, in millionths.
pub const MAX_COMBO: u64 = 4_000_000;

pub const PERFECT_HIT_SCORE: i64 = 1000;
pub const GOOD_HIT_SCORE: i64 = 800;
pub const OK_HIT_SCORE: i64 = 500;
pub const HOLD_SCORE_PER_BEAT: i64 = 1500;

/// Score lost on a hazard collision.
pub const SCORE_LOSS_LASER: i64 = 500;

/// Half-width of the Perfect window, in microbeats (0.05 beat).
pub const PERFECT_HIT_RANGE: i64 = 50_000;

/// Half-width of the Good window, in microbeats (0.10 beat).
pub const GOOD_HIT_RANGE: i64 = 100_000;

/// How good a hit was.
#[derive(Clone, Copy, Debug, PartialEq, Eq, Structural)]
pub enum ScoreQuality {
    Perfect,
    Good,
    Okay,
}

/// A judgment shown to the player.
#[derive(Clone, Copy, Debug, PartialEq, Eq, Structural)]
pub enum ScoreType {
    Incorrect,
    Miss,
    Score(ScoreQuality),
}

/// A judgment shown to the player, and the lane it concerns.
#[derive(Clone, Copy, Debug, PartialEq, Eq, Structural)]
pub struct Judgment {
    pub kind: ScoreType,
    pub lane: Lane,
}

/// `n / d` rounded to the nearest integer, halves up (`d > 0`).
pub open spec fn round_div(n: int, d: int) -> int {
    (2 * n + d) / (2 * d)
}

pub open spec fn abs(x: int) -> int {
    if x < 0 {
        -x
    } else {
        x
    }
}

/// The quality of a hit whose note lies `diff` microbeats from the current beat.
pub open spec fn quality_of(diff: int) -> ScoreQuality {
    if abs(diff) <= PERFECT_HIT_RANGE {
        ScoreQuality::Perfect
    } else if abs(diff) <= GOOD_HIT_RANGE {
        ScoreQuality::Good
    } else {
        ScoreQuality::Okay
    }
}

pub open spec fn base_score(q: ScoreQuality) -> int {
    match q {
        ScoreQuality::Perfect => PERFECT_HIT_SCORE as int,
        ScoreQuality::Good => GOOD_HIT_SCORE as int,
        ScoreQuality::Okay => OK_HIT_SCORE as int,
    }
}

/// Points for a tap of quality `q` under combo `combo` (millionths).
pub open spec fn hit_award(q: ScoreQuality, combo: int) -> int {
    round_div(base_score(q) * combo, COMBO_ONE as int)
}

/// The multiplier clamped into [1.0, 4.0].
pub open spec fn clamp_combo(c: int) -> int {
    if c < COMBO_ONE {
        COMBO_ONE as int
    } else if c > MAX_COMBO {
        MAX_COMBO as int
    } else {
        c
    }
}

/// `combo` scaled by `num / den`, rounded down, then clamped.
pub open spec fn scale_combo(combo: int, num: int, den: int) -> int {
    clamp_combo(combo * num / den)
}

/// The combo after a tap of quality `q`: times 1.05, 1.025 or unchanged.
pub open spec fn combo_after_hit(q: ScoreQuality, combo: int) -> int {
    match q {
        ScoreQuality::Perfect => scale_combo(combo, 21, 20),
        ScoreQuality::Good => scale_combo(combo, 41, 40),
        ScoreQuality::Okay => clamp_combo(combo),
    }
}

/// Points for a hold of `len` microbeats held for `done` of them under combo `combo`:
/// `1500 / len * (done / len) * combo`, rounded.
pub open spec fn hold_award(len: int, done: int, combo: int) -> int {
    round_div(HOLD_SCORE_PER_BEAT * combo * done, len * len)
}

/// The combo after a completed hold (times 1.08).
pub open spec fn combo_after_hold(combo: int) -> int {
    scale_combo(combo, 27, 25)
}

/// The combo after a hold released early (times 0.98).
pub open spec fn combo_after_release(combo: int) -> int {
    scale_combo(combo, 49, 50)
}

/// Classifies a hit by its distance `diff` from the current beat.
pub fn classify(diff: i64) -> (r: ScoreQuality)
    ensures
        r == quality_of(diff as int),
{
    if -PERFECT_HIT_RANGE <= diff && diff <= PERFECT_HIT_RANGE {
        ScoreQuality::Perfect
    } else if -GOOD_HIT_RANGE <= diff && diff <= GOOD_HIT_RANGE {
        ScoreQuality::Good
    } else {
        ScoreQuality::Okay
    }
}

/// Points for a tap of quality `q` under `combo`.
pub fn hit_points(q: ScoreQuality, combo: u64) -> (r: i64)
    requires
        combo <= MAX_COMBO,
    ensures
        r == hit_award(q, combo as int),
        0 <= r <= 4000,
{
    let base: u64 = match q {
        ScoreQuality::Perfect => 1000,
        ScoreQuality::Good => 800,
        ScoreQuality::Okay => 500,
    };
    assert(2 * base * combo <= 8_000_000_000) by (nonlinear_arith)
        requires
            base <= 1000,
            combo <= MAX_COMBO,
    ;
    let r = (2 * base * combo + COMBO_ONE) / (2 * COMBO_ONE);
    assert(base == base_score(q));
    assert(2 * (base * combo) == 2 * base * combo) by (nonlinear_arith);
    assert(r <= 4000) by (nonlinear_arith)
        requires
            r == (2 * base * combo + COMBO_ONE) / (2 * COMBO_ONE),
            base <= 1000,
            combo <= MAX_COMBO,
    ;
    r as i64
}

/// Points for a hold of `len` microbeats held for `done` of them under `combo`.
pub fn hold_points(len: i64, done: i64, combo: u64) -> (r: i64)
    requires
        len > 0,
        0 <= done <= len,
        combo <= MAX_COMBO,
    ensures
        r == hold_award(len as int, done as int, combo as int),
        0 <= r <= 6_000_000_000,
{
    let l = len as u128;
    let c = combo as u128;
    let e = done as u128;
    assert(1500 * c * e <= 6_000_000_000 * l) by (nonlinear_arith)
        requires
            c <= 4_000_000,
            e <= l,
    ;
    let n = 1500u128 * c * e;
    assert(l * l <= 0x4000_0000_0000_0000_0000_0000_0000_0000) by (nonlinear_arith)
        requires
            l < 0x8000_0000_0000_0000,
    ;
    let d = l * l;
    assert(d >= 1) by (nonlinear_arith)
        requires
            d == l * l,
            l >= 1,
    ;
    let r = (2 * n + d) / (2 * d);
    assert(r <= 6_000_000_000) by (nonlinear_arith)
        requires
            r == (2 * n + d) / (2 * d),
            n <= 6_000_000_000 * l,
            d == l * l,
            l >= 1,
    ;
    r as i64
}

/// The combo after a tap of quality `q`.
pub fn grow_combo(q: ScoreQuality, combo: u64) -> (r: u64)
    requires
        combo <= MAX_COMBO,
    ensures
        r == combo_after_hit(q, combo as int),
        COMBO_ONE <= r <= MAX_COMBO,
{
    match q {
        ScoreQuality::Perfect => scale(combo, 21, 20),
        ScoreQuality::Good => scale(combo, 41, 40),
        ScoreQuality::Okay => clamp(combo),
    }
}

/// `combo` scaled by `num / den` and clamped.
pub fn scale(combo: u64, num: u64, den: u64) -> (r: u64)
    requires
        combo <= MAX_COMBO,
        num <= 100,
        den > 0,
    ensures
        r == scale_combo(combo as int, num as int, den as int),
        COMBO_ONE <= r <= MAX_COMBO,
{
    assert(combo * num <= 400_000_000) by (nonlinear_arith)
        requires
            combo <= MAX_COMBO,
            num <= 100,
    ;
    clamp(combo * num / den)
}

/// Clamps a multiplier into [1.0, 4.0].
pub fn clamp(c: u64) -> (r: u64)
    ensures
        r == clamp_combo(c as int),
        COMBO_ONE <= r <= MAX_COMBO,
{
    if c < COMBO_ONE {
        COMBO_ONE
    } else if c > MAX_COMBO {
        MAX_COMBO
    } else {
        c
    }
}

} // verus!
