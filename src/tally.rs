//! The running score, combo multiplier and hit counters of a run.
use vstd::prelude::*;
use crate::scoring::{
    ScoreQuality, COMBO_ONE, MAX_COMBO, SCORE_LOSS_LASER, hit_award, combo_after_hit, hold_award,
    combo_after_hold, combo_after_release, hit_points, grow_combo, hold_points, scale,
};

verus! {

/// Largest score magnitude at the start of a frame: far beyond any real run,
/// it leaves room for every event of a frame in an `i128`.
pub const SCORE_LIMIT: i128 = 0x10_0000_0000_0000_0000_0000_0000;

/// Largest value of a hit counter at the start of a frame.
pub const COUNT_LIMIT: u64 = 0x4000_0000_0000_0000;

/// Largest score magnitude before a single event.
pub const HEADROOM: i128 = 0x2000_0000_0000_0000_0000_0000_0000_0000;

/// Score, combo multiplier (millionths) and how many hits of each kind a run has seen.
#[derive(Clone, Copy, Debug, PartialEq, Eq, Structural)]
pub struct Tally {
    pub score: i128,
    pub combo: u64,
    pub perfect: u64,
    pub good: u64,
    pub okay: u64,
    pub incorrect: u64,
    pub missed: u64,
}

/// The tally as plain numbers.
pub struct TallyView {
    pub score: int,
    pub combo: int,
    pub perfect: int,
    pub good: int,
    pub okay: int,
    pub incorrect: int,
    pub missed: int,
}

impl View for Tally {
    type V = TallyView;

    open spec fn view(&self) -> TallyView {
        TallyView {
            score: self.score as int,
            combo: self.combo as int,
            perfect: self.perfect as int,
            good: self.good as int,
            okay: self.okay as int,
            incorrect: self.incorrect as int,
            missed: self.missed as int,
        }
    }
}

/// The tally after a tap of quality `q`: points under the combo as it stood, then the combo grows.
pub open spec fn after_hit(t: TallyView, q: ScoreQuality) -> TallyView {
    TallyView {
        score: t.score + hit_award(q, t.combo),
        combo: combo_after_hit(q, t.combo),
        perfect: if q == ScoreQuality::Perfect { t.perfect + 1 } else { t.perfect },
        good: if q == ScoreQuality::Good { t.good + 1 } else { t.good },
        okay: if q == ScoreQuality::Okay { t.okay + 1 } else { t.okay },
        ..t
    }
}

/// The tally after a note scrolled past unplayed: the combo resets to exactly 1.0.
pub open spec fn after_miss(t: TallyView) -> TallyView {
    TallyView { combo: COMBO_ONE as int, missed: t.missed + 1, ..t }
}

/// The tally after a press with nothing to hit: the combo resets to exactly 1.0.
pub open spec fn after_incorrect(t: TallyView) -> TallyView {
    TallyView { combo: COMBO_ONE as int, incorrect: t.incorrect + 1, ..t }
}

/// The tally after a hold of `len` microbeats ends having been held for `done` of them;
/// `complete` when it was held to the end.
pub open spec fn after_hold(t: TallyView, len: int, done: int, complete: bool) -> TallyView {
    TallyView {
        score: t.score + hold_award(len, done, t.combo),
        combo: if complete { combo_after_hold(t.combo) } else { combo_after_release(t.combo) },
        ..t
    }
}

/// The tally after a hazard collision: a fixed penalty, the combo untouched.
pub open spec fn after_collision(t: TallyView) -> TallyView {
    TallyView { score: t.score - SCORE_LOSS_LASER, ..t }
}

impl Tally {
    /// The combo lies in [1.0, 4.0].
    pub open spec fn wf(self) -> bool {
        COMBO_ONE <= self.combo <= MAX_COMBO
    }

    /// Room for one more event in the fixed-width fields.
    pub open spec fn headroom(self) -> bool {
        &&& -HEADROOM <= self.score <= HEADROOM
        &&& self.perfect < u64::MAX
        &&& self.good < u64::MAX
        &&& self.okay < u64::MAX
        &&& self.incorrect < u64::MAX
        &&& self.missed < u64::MAX
    }

    /// Room for a whole frame: the score within `SCORE_LIMIT`, each counter within `COUNT_LIMIT`.
    pub open spec fn room(self) -> bool {
        &&& -SCORE_LIMIT <= self.score <= SCORE_LIMIT
        &&& self.perfect <= COUNT_LIMIT
        &&& self.good <= COUNT_LIMIT
        &&& self.okay <= COUNT_LIMIT
        &&& self.incorrect <= COUNT_LIMIT
        &&& self.missed <= COUNT_LIMIT
    }

    /// A fresh run: no score, combo 1.0, no hits.
    pub fn new() -> (r: Tally)
        ensures
            r.wf(),
            r.room(),
            r@ == (TallyView {
                score: 0,
                combo: COMBO_ONE as int,
                perfect: 0,
                good: 0,
                okay: 0,
                incorrect: 0,
                missed: 0,
            }),
    {
        Tally { score: 0, combo: COMBO_ONE, perfect: 0, good: 0, okay: 0, incorrect: 0, missed: 0 }
    }

    /// Whether the fields have room for a frame: the score within `SCORE_LIMIT`,
    /// each counter within `COUNT_LIMIT`.
    pub fn has_room(&self) -> (r: bool)
        ensures
            r == self.room(),
    {
        -SCORE_LIMIT <= self.score && self.score <= SCORE_LIMIT && self.perfect <= COUNT_LIMIT
            && self.good <= COUNT_LIMIT && self.okay <= COUNT_LIMIT && self.incorrect
            <= COUNT_LIMIT && self.missed <= COUNT_LIMIT
    }

    /// Records a tap of quality `q`.
    pub fn record_hit(&mut self, q: ScoreQuality)
        requires
            old(self).wf(),
            old(self).headroom(),
        ensures
            final(self).wf(),
            final(self)@ == after_hit(old(self)@, q),
            old(self).score <= final(self).score <= old(self).score + 4000,
    {
        let pts = hit_points(q, self.combo);
        self.score = self.score + pts as i128;
        self.combo = grow_combo(q, self.combo);
        match q {
            ScoreQuality::Perfect => self.perfect = self.perfect + 1,
            ScoreQuality::Good => self.good = self.good + 1,
            ScoreQuality::Okay => self.okay = self.okay + 1,
        }
    }

    /// Records a note that scrolled past unplayed.
    pub fn record_miss(&mut self)
        requires
            old(self).headroom(),
        ensures
            final(self).wf(),
            final(self)@ == after_miss(old(self)@),
    {
        self.combo = COMBO_ONE;
        self.missed = self.missed + 1;
    }

    /// Records a press with nothing to hit.
    pub fn record_incorrect(&mut self)
        requires
            old(self).headroom(),
        ensures
            final(self).wf(),
            final(self)@ == after_incorrect(old(self)@),
    {
        self.combo = COMBO_ONE;
        self.incorrect = self.incorrect + 1;
    }

    /// Records the end of a hold of `len` microbeats, held for `done` of them.
    pub fn record_hold(&mut self, len: i64, done: i64, complete: bool)
        requires
            old(self).wf(),
            -HEADROOM <= old(self).score <= HEADROOM,
            len > 0,
            0 <= done <= len,
        ensures
            final(self).wf(),
            final(self)@ == after_hold(old(self)@, len as int, done as int, complete),
            old(self).score <= final(self).score <= old(self).score + 6_000_000_000,
    {
        let pts = hold_points(len, done, self.combo);
        self.score = self.score + pts as i128;
        if complete {
            self.combo = scale(self.combo, 27, 25);
        } else {
            self.combo = scale(self.combo, 49, 50);
        }
    }

    /// Records a hazard collision.
    pub fn record_collision(&mut self)
        requires
            -HEADROOM <= old(self).score <= HEADROOM,
        ensures
            final(self).combo == old(self).combo,
            final(self)@ == after_collision(old(self)@),
    {
        self.score = self.score - SCORE_LOSS_LASER as i128;
    }
}

/// The combo multiplier stays in [1.0, 4.0] through every kind of update, and a miss or
/// an incorrect press sets it to exactly 1.0.
pub proof fn lemma_combo_in_range(t: TallyView, q: ScoreQuality, len: int, done: int, complete: bool)
    requires
        COMBO_ONE <= t.combo <= MAX_COMBO,
    ensures
        COMBO_ONE <= after_hit(t, q).combo <= MAX_COMBO,
        COMBO_ONE <= after_hold(t, len, done, complete).combo <= MAX_COMBO,
        after_collision(t).combo == t.combo,
        after_miss(t).combo == COMBO_ONE,
        after_incorrect(t).combo == COMBO_ONE,
{
}

} // verus!
