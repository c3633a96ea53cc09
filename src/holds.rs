//! The holds in progress: completed when held to the end, credited in part when let go early.
use vstd::prelude::*;
use crate::lane::LaneSet;
use crate::scoring::{Judgment, ScoreQuality, ScoreType};
use crate::song::Note;
use crate::scoring::round_div;
use crate::tally::{Tally, TallyView, after_hold, HEADROOM, COUNT_LIMIT};

verus! {

/// What a frame's hold pass has produced so far.
pub struct HoldPass {
    /// Holds still in progress, in their order.
    pub kept: Seq<Note>,
    pub tally: TallyView,
    pub events: Seq<Judgment>,
}

/// How many microbeats of the hold `h` have elapsed at `beat`, clamped to [0, h.hold].
pub open spec fn held_for(h: Note, beat: int) -> int {
    if beat - h.beat < 0 {
        0
    } else if beat - h.beat > h.hold {
        h.hold as int
    } else {
        beat - h.beat
    }
}

/// The pass after the hold `h` is looked at: held to its end it completes, with full
/// credit; let go, it ends with credit for the part done; otherwise it goes on.
pub open spec fn hold_step(p: HoldPass, h: Note, beat: int, held: LaneSet) -> HoldPass {
    if held.has(h.lane) {
        if beat - h.beat >= h.hold {
            HoldPass {
                tally: after_hold(p.tally, h.hold as int, h.hold as int, true),
                events: p.events.push(Judgment { kind: ScoreType::Score(ScoreQuality::Perfect), lane: h.lane }),
                ..p
            }
        } else {
            HoldPass { kept: p.kept.push(h), ..p }
        }
    } else {
        HoldPass {
            tally: after_hold(p.tally, h.hold as int, held_for(h, beat), false),
            events: p.events.push(Judgment { kind: ScoreType::Score(ScoreQuality::Okay), lane: h.lane }),
            ..p
        }
    }
}

/// The pass over `holds`, in order, starting from `start`.
pub open spec fn hold_pass(holds: Seq<Note>, beat: int, held: LaneSet, start: HoldPass) -> HoldPass
    decreases holds.len(),
{
    if holds.len() == 0 {
        start
    } else {
        hold_step(hold_pass(holds.drop_last(), beat, held, start), holds.last(), beat, held)
    }
}

/// Every hold has a positive length.
pub open spec fn holds_wf(holds: Seq<Note>) -> bool {
    forall|i: int| 0 <= i < holds.len() ==> #[trigger] holds[i].hold > 0
}

/// Judges the holds in progress at `beat` with the lanes `held` down this frame.
pub fn judge_holds(holds: &Vec<Note>, beat: i64, held: LaneSet, tally: Tally, events: Vec<Judgment>) -> (r: (
    Vec<Note>,
    Tally,
    Vec<Judgment>,
))
    requires
        holds_wf(holds@),
        holds@.len() <= COUNT_LIMIT,
        tally.wf(),
        -HEADROOM / 2 <= tally.score <= HEADROOM / 2,
    ensures
        (HoldPass { kept: r.0@, tally: r.1@, events: r.2@ }) == hold_pass(
            holds@,
            beat as int,
            held,
            HoldPass { kept: Seq::empty(), tally: tally@, events: events@ },
        ),
        holds_wf(r.0@),
        r.0@.len() <= holds@.len(),
        r.1.wf(),
        tally.score <= r.1.score <= tally.score + 6_000_000_000 * holds@.len(),
        r.1.perfect == tally.perfect,
        r.1.good == tally.good,
        r.1.okay == tally.okay,
        r.1.incorrect == tally.incorrect,
        r.1.missed == tally.missed,
{
    let ghost start = HoldPass { kept: Seq::empty(), tally: tally@, events: events@ };
    let mut kept: Vec<Note> = Vec::new();
    let mut t = tally;
    let mut ev = events;
    let mut i: usize = 0;
    while i < holds.len()
        invariant
            i <= holds@.len(),
            holds@.len() <= COUNT_LIMIT,
            holds_wf(holds@),
            holds_wf(kept@),
            kept@.len() <= i,
            (HoldPass { kept: kept@, tally: t@, events: ev@ }) == hold_pass(
                holds@.take(i as int),
                beat as int,
                held,
                start,
            ),
            t.wf(),
            tally.score <= t.score <= tally.score + 6_000_000_000 * i,
            -HEADROOM / 2 <= tally.score <= HEADROOM / 2,
            t.perfect == tally.perfect,
            t.good == tally.good,
            t.okay == tally.okay,
            t.incorrect == tally.incorrect,
            t.missed == tally.missed,
        decreases holds@.len() - i,
    {
        let h = holds[i];
        assert(holds@.take(i + 1).drop_last() =~= holds@.take(i as int));
        assert(holds@.take(i + 1).last() == h);
        assert(h.hold > 0);
        let elapsed: i128 = beat as i128 - h.beat as i128;
        if held.contains(h.lane) {
            if elapsed >= h.hold as i128 {
                t.record_hold(h.hold, h.hold, true);
                ev.push(Judgment { kind: ScoreType::Score(ScoreQuality::Perfect), lane: h.lane });
            } else {
                kept.push(h);
            }
        } else {
            let done: i64 = if elapsed < 0 {
                0
            } else if elapsed > h.hold as i128 {
                h.hold
            } else {
                elapsed as i64
            };
            t.record_hold(h.hold, done, false);
            ev.push(Judgment { kind: ScoreType::Score(ScoreQuality::Okay), lane: h.lane });
        }
        i = i + 1;
    }
    assert(holds@.take(i as int) =~= holds@);
    (kept, t, ev)
}

/// A hold of length `L` held to its end under combo `c` scores `1500 / L * c`, rounded;
/// one let go when a fraction `p` of it has run scores `1500 / L * p * c`, rounded, where
/// `p = held_for / L` lies in [0, 1]. (Lengths in microbeats, the combo in millionths.)
pub proof fn lemma_hold_awards(p: HoldPass, h: Note, beat: int, held: LaneSet)
    requires
        h.hold > 0,
        p.tally.combo >= 0,
    ensures
        held.has(h.lane) && beat - h.beat >= h.hold ==> hold_step(p, h, beat, held).tally.score
            == p.tally.score + round_div(1500 * p.tally.combo, h.hold as int),
        !held.has(h.lane) ==> 0 <= held_for(h, beat) <= h.hold && hold_step(p, h, beat, held).tally.score
            == p.tally.score + round_div(1500 * p.tally.combo * held_for(h, beat), h.hold * h.hold),
{
    let l = h.hold as int;
    let c = p.tally.combo;
    let x = 2 * (1500 * c) + l;
    assert(x >= 0);
    assert(2 * (1500 * c * l) + l * l == x * l) by (nonlinear_arith)
        requires
            x == 2 * (1500 * c) + l,
    ;
    assert(2 * (l * l) == (2 * l) * l) by (nonlinear_arith);
    assert((x * l) / l == x) by {
        vstd::arithmetic::div_mod::lemma_div_multiples_vanish(x, l);
        assert(l * x == x * l) by (nonlinear_arith);
    }
    vstd::arithmetic::div_mod::lemma_div_denominator(x * l, l, 2 * l);
    assert(l * (2 * l) == (2 * l) * l) by (nonlinear_arith);
    assert((x * l) / ((2 * l) * l) == x / (2 * l));
    assert(round_div(1500 * c * l, l * l) == round_div(1500 * c, l));
}

} // verus!
