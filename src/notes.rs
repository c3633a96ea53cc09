//! Judgment of the active notes in one frame: misses, hits, holds started, and
//! presses that found nothing to hit.
use vstd::prelude::*;
use crate::health::{CORRECT_HEALTH_GAIN, HEALTH_LOSS_INCORRECT, HEALTH_LOSS_MISS};
use crate::lane::{Lane, LaneSet};
use crate::scoring::{BEAT, Judgment, ScoreType, classify, quality_of};
use crate::holds::holds_wf;
use crate::song::{Note, notes_wf};
use crate::tally::{COUNT_LIMIT, SCORE_LIMIT, Tally, TallyView, after_hit, after_incorrect, after_miss};

verus! {

/// How far from the current beat a note can be hit, in microbeats (0.25 beat).
pub const NOTE_CORRECT_RANGE: i64 = 250_000;

/// Largest running health magnitude at the start of a frame.
pub const HEALTH_LIMIT: i128 = 0x1_0000_0000_0000_0000_0000_0000;

/// What a frame's note pass has produced so far.
pub struct NotePass {
    /// Notes still waiting to be judged, in their order.
    pub kept: Seq<Note>,
    /// For each kept note, its position in the list the pass read.
    pub kept_at: Seq<int>,
    /// Holds in progress.
    pub holds: Seq<Note>,
    /// Lanes whose press this frame has already been used.
    pub resolved: LaneSet,
    pub tally: TallyView,
    /// Health, not yet clamped.
    pub health: int,
    /// Judgments shown to the player, in order.
    pub events: Seq<Judgment>,
}

/// Whether `n` lies within the hit window around `beat`.
pub open spec fn in_window(n: Note, beat: int) -> bool {
    beat - NOTE_CORRECT_RANGE <= n.beat <= beat + NOTE_CORRECT_RANGE
}

/// The pass after the note `n`, at position `i`, is looked at in the frame at `beat`.
pub open spec fn note_step(p: NotePass, n: Note, i: int, beat: int, pressed: LaneSet) -> NotePass {
    if n.beat < beat - BEAT {
        NotePass {
            tally: after_miss(p.tally),
            health: p.health - HEALTH_LOSS_MISS,
            events: p.events.push(Judgment { kind: ScoreType::Miss, lane: n.lane }),
            ..p
        }
    } else if !in_window(n, beat) || !pressed.has(n.lane) || p.resolved.has(n.lane) {
        NotePass { kept: p.kept.push(n), kept_at: p.kept_at.push(i), ..p }
    } else if n.hold != 0 {
        NotePass { holds: p.holds.push(n), resolved: p.resolved.with(n.lane), ..p }
    } else {
        let q = quality_of(n.beat - beat);
        NotePass {
            tally: after_hit(p.tally, q),
            health: p.health + CORRECT_HEALTH_GAIN,
            resolved: p.resolved.with(n.lane),
            events: p.events.push(Judgment { kind: ScoreType::Score(q), lane: n.lane }),
            ..p
        }
    }
}

/// The pass over `notes`, in order, starting from `start`.
pub open spec fn note_pass(notes: Seq<Note>, beat: int, pressed: LaneSet, start: NotePass) -> NotePass
    decreases notes.len(),
{
    if notes.len() == 0 {
        start
    } else {
        note_step(
            note_pass(notes.drop_last(), beat, pressed, start),
            notes.last(),
            notes.len() - 1,
            beat,
            pressed,
        )
    }
}

/// A lane pressed this frame whose press judged no note counts as incorrect.
pub open spec fn press_step(p: NotePass, lane: Lane, pressed: LaneSet) -> NotePass {
    if pressed.has(lane) && !p.resolved.has(lane) {
        NotePass {
            tally: after_incorrect(p.tally),
            health: p.health - HEALTH_LOSS_INCORRECT,
            events: p.events.push(Judgment { kind: ScoreType::Incorrect, lane }),
            ..p
        }
    } else {
        p
    }
}

/// The incorrect presses of a frame, taken in the order Up, Down, Left, Right.
pub open spec fn press_pass(p: NotePass, pressed: LaneSet) -> NotePass {
    press_step(
        press_step(press_step(press_step(p, Lane::Up, pressed), Lane::Down, pressed), Lane::Left, pressed),
        Lane::Right,
        pressed,
    )
}

/// The executable state of a note pass.
pub struct Pass {
    pub kept: Vec<Note>,
    pub kept_at: Ghost<Seq<int>>,
    pub holds: Vec<Note>,
    pub resolved: LaneSet,
    pub tally: Tally,
    pub health: i128,
    pub events: Vec<Judgment>,
}

impl View for Pass {
    type V = NotePass;

    open spec fn view(&self) -> NotePass {
        NotePass {
            kept: self.kept@,
            kept_at: self.kept_at@,
            holds: self.holds@,
            resolved: self.resolved,
            tally: self.tally@,
            health: self.health as int,
            events: self.events@,
        }
    }
}

impl Pass {
    /// Within the bounds that leave room for every event of a frame.
    pub open spec fn room(&self) -> bool {
        &&& self.tally.wf()
        &&& self.tally.room()
        &&& -HEALTH_LIMIT <= self.health <= HEALTH_LIMIT
    }
}

/// Judges every active note of the frame at `beat` (microbeats) with the lanes `pressed`
/// this frame, in list order: a note more than a beat behind is missed; one within the hit
/// window whose lane was pressed, and whose lane has not judged a note yet this frame, is
/// hit (or starts a hold, if it has a hold length); every other note stays active.
pub fn judge_notes(notes: &Vec<Note>, beat: i64, pressed: LaneSet, start: Pass) -> (r: Pass)
    requires
        start.room(),
        notes@.len() <= COUNT_LIMIT,
        notes_wf(notes@),
        notes_wf(start.kept@),
        holds_wf(start.holds@),
    ensures
        r@ == note_pass(notes@, beat as int, pressed, start@),
        notes_wf(r.kept@),
        holds_wf(r.holds@),
        r.kept@.len() + r.holds@.len() <= start.kept@.len() + start.holds@.len() + notes@.len(),
        r.tally.wf(),
        -SCORE_LIMIT <= r.tally.score <= SCORE_LIMIT + 4000 * notes@.len(),
        r.tally.perfect <= COUNT_LIMIT + notes@.len(),
        r.tally.good <= COUNT_LIMIT + notes@.len(),
        r.tally.okay <= COUNT_LIMIT + notes@.len(),
        r.tally.incorrect <= COUNT_LIMIT + notes@.len(),
        r.tally.missed <= COUNT_LIMIT + notes@.len(),
        -HEALTH_LIMIT - 50 * notes@.len() <= r.health <= HEALTH_LIMIT + 15 * notes@.len(),
{
    let mut p = start;
    let mut i: usize = 0;
    while i < notes.len()
        invariant
            i <= notes@.len(),
            notes@.len() <= COUNT_LIMIT,
            p@ == note_pass(notes@.take(i as int), beat as int, pressed, start@),
            notes_wf(notes@),
            notes_wf(p.kept@),
            holds_wf(p.holds@),
            p.kept@.len() + p.holds@.len() <= start.kept@.len() + start.holds@.len() + i,
            p.tally.wf(),
            -SCORE_LIMIT <= p.tally.score <= SCORE_LIMIT + 4000 * i,
            p.tally.perfect <= COUNT_LIMIT + i,
            p.tally.good <= COUNT_LIMIT + i,
            p.tally.okay <= COUNT_LIMIT + i,
            p.tally.incorrect <= COUNT_LIMIT + i,
            p.tally.missed <= COUNT_LIMIT + i,
            -HEALTH_LIMIT - 50 * i <= p.health <= HEALTH_LIMIT + 15 * i,
        decreases notes@.len() - i,
    {
        let n = notes[i];
        assert(n.hold >= 0);
        assert(notes@.take(i + 1).drop_last() =~= notes@.take(i as int));
        assert(notes@.take(i + 1).last() == n);
        if (n.beat as i128) < (beat as i128) - (BEAT as i128) {
            p.tally.record_miss();
            p.health = p.health - HEALTH_LOSS_MISS as i128;
            p.events.push(Judgment { kind: ScoreType::Miss, lane: n.lane });
        } else if (n.beat as i128) < (beat as i128) - (NOTE_CORRECT_RANGE as i128) || (n.beat as i128)
            > (beat as i128) + (NOTE_CORRECT_RANGE as i128) || !pressed.contains(n.lane)
            || p.resolved.contains(n.lane) {
            p.kept.push(n);
            p.kept_at = Ghost(p.kept_at@.push(i as int));
        } else if n.hold != 0 {
            p.holds.push(n);
            p.resolved.insert(n.lane);
        } else {
            let q = classify(n.beat - beat);
            p.tally.record_hit(q);
            p.health = p.health + CORRECT_HEALTH_GAIN as i128;
            p.resolved.insert(n.lane);
            p.events.push(Judgment { kind: ScoreType::Score(q), lane: n.lane });
        }
        i = i + 1;
    }
    assert(notes@.take(i as int) =~= notes@);
    p
}

/// Judges the frame's presses that hit no note, in the order Up, Down, Left, Right:
/// each costs health and resets the combo.
pub fn judge_presses(pressed: LaneSet, start: Pass) -> (r: Pass)
    requires
        start.tally.wf(),
        start.tally.headroom(),
        start.tally.perfect <= COUNT_LIMIT * 3,
        start.tally.good <= COUNT_LIMIT * 3,
        start.tally.okay <= COUNT_LIMIT * 3,
        start.tally.incorrect <= COUNT_LIMIT * 3,
        start.tally.missed <= COUNT_LIMIT * 3,
        -HEALTH_LIMIT * 2 <= start.health <= HEALTH_LIMIT * 2,
    ensures
        r@ == press_pass(start@, pressed),
        r.tally.wf(),
        r.tally.score == start.tally.score,
        r.tally.incorrect <= start.tally.incorrect + 4,
        r.tally.perfect == start.tally.perfect,
        r.tally.good == start.tally.good,
        r.tally.okay == start.tally.okay,
        r.tally.missed == start.tally.missed,
        start.health - 200 <= r.health <= start.health,
{
    let mut p = start;
    press(&mut p, Lane::Up, pressed);
    press(&mut p, Lane::Down, pressed);
    press(&mut p, Lane::Left, pressed);
    press(&mut p, Lane::Right, pressed);
    p
}

fn press(p: &mut Pass, lane: Lane, pressed: LaneSet)
    requires
        old(p).tally.wf(),
        old(p).tally.headroom(),
        old(p).tally.incorrect <= COUNT_LIMIT * 3 + 4,
        -HEALTH_LIMIT * 3 <= old(p).health <= HEALTH_LIMIT * 3,
    ensures
        final(p)@ == press_step(old(p)@, lane, pressed),
        final(p).tally.wf(),
        final(p).tally.headroom(),
        final(p).tally.score == old(p).tally.score,
        old(p).tally.incorrect <= final(p).tally.incorrect <= old(p).tally.incorrect + 1,
        final(p).tally.perfect == old(p).tally.perfect,
        final(p).tally.good == old(p).tally.good,
        final(p).tally.okay == old(p).tally.okay,
        final(p).tally.missed == old(p).tally.missed,
        old(p).health - 50 <= final(p).health <= old(p).health,
{
    if pressed.contains(lane) && !p.resolved.contains(lane) {
        p.tally.record_incorrect();
        p.health = p.health - HEALTH_LOSS_INCORRECT as i128;
        p.events.push(Judgment { kind: ScoreType::Incorrect, lane });
    }
}

/// A frame never adds a note to the active set nor repeats one: the notes it leaves active
/// are notes it was given, each from a position of its own and in their order, so a note
/// that the frame judged (missed, hit, or turned into a hold) is gone from the set.
pub proof fn lemma_judged_notes_leave(notes: Seq<Note>, beat: int, pressed: LaneSet, start: NotePass)
    requires
        start.kept.len() == 0,
        start.kept_at.len() == 0,
    ensures
        ({
            let r = note_pass(notes, beat, pressed, start);
            &&& r.kept.len() == r.kept_at.len()
            &&& forall|j: int|
                0 <= j < r.kept_at.len() ==> 0 <= #[trigger] r.kept_at[j] < notes.len() && r.kept[j]
                    == notes[r.kept_at[j]]
            &&& forall|j: int, k: int| 0 <= j < k < r.kept_at.len() ==> #[trigger] r.kept_at[j] < #[trigger] r.kept_at[k]
        }),
    decreases notes.len(),
{
    if notes.len() > 0 {
        let init = notes.drop_last();
        lemma_judged_notes_leave(init, beat, pressed, start);
        let m = note_pass(init, beat, pressed, start);
        let r = note_pass(notes, beat, pressed, start);
        assert(r == note_step(m, notes.last(), notes.len() - 1, beat, pressed));
        assert forall|j: int| 0 <= j < m.kept_at.len() implies 0 <= #[trigger] m.kept_at[j] < notes.len() - 1
            && m.kept[j] == notes[m.kept_at[j]] by {
            assert(init[m.kept_at[j]] == notes[m.kept_at[j]]);
        }
    }
}

} // verus!
