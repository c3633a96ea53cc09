//! One frame of judgment: notes, incorrect presses, holds, hazards, health and the
//! game-over countdown, over an explicit state owned by the session.
use vstd::prelude::*;
use crate::hazards::{HazardPass, INVINCIBILITY_TIME, hazard_pass, judge_hazards};
use crate::health::{MAX_HEALTH, clamp, clamp_health};
use crate::holds::{HoldPass, hold_pass, holds_wf, judge_holds};
use crate::lane::{Lane, LaneSet};
use crate::planner::{plan, plan_lane};
use crate::notes::{NotePass, Pass, judge_notes, judge_presses, lemma_judged_notes_leave, note_pass, press_pass};
use crate::scoring::{COMBO_ONE, Judgment};
use crate::song::{Hazard, Note, by_beat, notes_wf, sort_by_beat};
use crate::tally::{COUNT_LIMIT, Tally, TallyView};

verus! {

/// How long the game-over countdown runs, in microseconds (3 s).
pub const GAME_OVER_TIME: i64 = 3_000_000;

/// Invincibility the ship starts a run with, in microseconds.
pub const START_INVINCIBILITY: i64 = 250_000;

/// Longest frame the engine accepts, in microseconds (an hour).
pub const MAX_FRAME_TIME: i64 = 3_600_000_000;

/// What the player (or the autopilot) did in one frame, and when.
#[derive(Clone, Copy, Debug, PartialEq, Eq, Structural)]
pub struct FrameInput {
    /// The current beat, in microbeats.
    pub beat: i64,
    /// Lanes whose input went down this frame.
    pub pressed: LaneSet,
    /// Lanes whose input is down.
    pub held: LaneSet,
    /// The lane the ship is in.
    pub ship: Lane,
    /// Microseconds since the previous frame.
    pub frame_time: i64,
}

/// How a run ends, if it has.
#[derive(Clone, Copy, Debug, PartialEq, Eq, Structural)]
pub enum Outcome {
    Playing,
    Failed,
    Completed,
}

/// The judgment state of a run.
pub struct JudgmentState {
    /// Notes not yet judged, in beat order.
    pub notes: Vec<Note>,
    /// Holds in progress.
    pub holds: Vec<Note>,
    /// Hazards not yet over.
    pub hazards: Vec<Hazard>,
    pub tally: Tally,
    /// Health, in [0, 500].
    pub health: i64,
    /// Microseconds before the ship can be hit again.
    pub invincibility: i64,
    /// Microseconds left of the game-over countdown, once it has started.
    pub countdown: Option<i64>,
}

/// The judgment state as plain values.
pub struct StateView {
    pub notes: Seq<Note>,
    pub holds: Seq<Note>,
    pub hazards: Seq<Hazard>,
    pub tally: TallyView,
    pub health: int,
    pub invincibility: int,
    pub countdown: Option<int>,
}

impl View for JudgmentState {
    type V = StateView;

    open spec fn view(&self) -> StateView {
        StateView {
            notes: self.notes@,
            holds: self.holds@,
            hazards: self.hazards@,
            tally: self.tally@,
            health: self.health as int,
            invincibility: self.invincibility as int,
            countdown: match self.countdown {
                Some(t) => Some(t as int),
                None => None,
            },
        }
    }
}

/// `t` less `dt`, but not below zero.
pub open spec fn run_down(t: int, dt: int) -> int {
    if t - dt < 0 {
        0
    } else {
        t - dt
    }
}

/// The note pass and the incorrect presses of the frame.
pub open spec fn frame_notes(s: StateView, inp: FrameInput) -> NotePass {
    press_pass(
        note_pass(
            s.notes,
            inp.beat as int,
            inp.pressed,
            NotePass {
                kept: Seq::empty(),
                kept_at: Seq::empty(),
                holds: s.holds,
                resolved: LaneSet { up: false, down: false, left: false, right: false },
                tally: s.tally,
                health: s.health,
                events: Seq::empty(),
            },
        ),
        inp.pressed,
    )
}

/// The hold pass of the frame, after its notes.
pub open spec fn frame_holds(s: StateView, inp: FrameInput) -> HoldPass {
    let p = frame_notes(s, inp);
    hold_pass(p.holds, inp.beat as int, inp.held, HoldPass { kept: Seq::empty(), tally: p.tally, events: p.events })
}

/// The hazard pass of the frame, after its holds; invincibility first runs down by the frame's time.
pub open spec fn frame_hazards(s: StateView, inp: FrameInput) -> HazardPass {
    let p = frame_notes(s, inp);
    let h = frame_holds(s, inp);
    hazard_pass(
        s.hazards,
        inp.beat as int,
        inp.ship,
        HazardPass {
            kept: Seq::empty(),
            invincibility: run_down(s.invincibility, inp.frame_time as int),
            tally: h.tally,
            health: p.health,
            events: h.events,
            collisions: 0,
        },
    )
}

/// The countdown after a frame that ends with `health`: it starts once health is 0, is never
/// restarted, and runs down by the frame's time.
pub open spec fn next_countdown(countdown: Option<int>, health: int, dt: int) -> Option<int> {
    let c = if countdown is None && health <= 0 {
        Some(GAME_OVER_TIME as int)
    } else {
        countdown
    };
    match c {
        Some(t) => Some(run_down(t, dt)),
        None => None,
    }
}

/// The state after one frame.
pub open spec fn next_state(s: StateView, inp: FrameInput) -> StateView {
    let p = frame_notes(s, inp);
    let h = frame_holds(s, inp);
    let z = frame_hazards(s, inp);
    let health = clamp_health(z.health);
    StateView {
        notes: p.kept,
        holds: h.kept,
        hazards: z.kept,
        tally: z.tally,
        health,
        invincibility: z.invincibility,
        countdown: next_countdown(s.countdown, health, inp.frame_time as int),
    }
}

/// The judgments one frame shows, in order: notes, incorrect presses, holds, collisions.
pub open spec fn frame_events(s: StateView, inp: FrameInput) -> Seq<Judgment> {
    frame_hazards(s, inp).events
}

impl JudgmentState {
    /// The state's invariant.
    pub open spec fn wf(&self) -> bool {
        &&& self.tally.wf()
        &&& 0 <= self.health <= MAX_HEALTH
        &&& 0 <= self.invincibility <= INVINCIBILITY_TIME
        &&& notes_wf(self.notes@)
        &&& by_beat(self.notes@)
        &&& holds_wf(self.holds@)
        &&& self.notes@.len() + self.holds@.len() <= COUNT_LIMIT
        &&& self.hazards@.len() <= COUNT_LIMIT
        &&& self.countdown matches Some(t) ==> 0 <= t <= GAME_OVER_TIME
    }

    /// A run about to start on `notes`, put in beat order, and `hazards`: full health,
    /// no score, combo 1.0.
    pub fn new(notes: Vec<Note>, hazards: Vec<Hazard>) -> (r: JudgmentState)
        requires
            notes_wf(notes@),
            notes@.len() <= COUNT_LIMIT,
            hazards@.len() <= COUNT_LIMIT,
        ensures
            r.wf(),
            r.tally.room(),
            by_beat(r.notes@),
            r.notes@.to_multiset() == notes@.to_multiset(),
            r@ == (StateView {
                notes: r.notes@,
                holds: Seq::empty(),
                hazards: hazards@,
                tally: TallyView {
                    score: 0,
                    combo: COMBO_ONE as int,
                    perfect: 0,
                    good: 0,
                    okay: 0,
                    incorrect: 0,
                    missed: 0,
                },
                health: MAX_HEALTH as int,
                invincibility: START_INVINCIBILITY as int,
                countdown: None,
            }),
    {
        let sorted = sort_by_beat(&notes);
        proof {
            vstd::seq_lib::to_multiset_len(notes@);
            vstd::seq_lib::to_multiset_len(sorted@);
        }
        JudgmentState {
            notes: sorted,
            holds: Vec::new(),
            hazards,
            tally: Tally::new(),
            health: MAX_HEALTH,
            invincibility: START_INVINCIBILITY,
            countdown: None,
        }
    }

    /// Runs one frame and returns the judgments it shows.
    pub fn update(&mut self, input: &FrameInput) -> (events: Vec<Judgment>)
        requires
            old(self).wf(),
            old(self).tally.room(),
            0 <= input.frame_time <= MAX_FRAME_TIME,
        ensures
            final(self).wf(),
            final(self)@ == next_state(old(self)@, *input),
            events@ == frame_events(old(self)@, *input),
    {
        let ghost s = self@;
        let mut holds: Vec<Note> = Vec::new();
        std::mem::swap(&mut holds, &mut self.holds);
        let start = Pass {
            kept: Vec::new(),
            kept_at: Ghost(Seq::empty()),
            holds,
            resolved: LaneSet::none(),
            tally: self.tally,
            health: self.health as i128,
            events: Vec::new(),
        };
        let p = judge_notes(&self.notes, input.beat, input.pressed, start);
        let p = judge_presses(input.pressed, p);
        proof {
            lemma_frame_keeps_notes(s, *input);
            let q = frame_notes(s, *input);
            assert forall|j: int, k: int| 0 <= j < k < p.kept@.len() implies #[trigger] p.kept@[j].beat
                <= #[trigger] p.kept@[k].beat by {
                assert(q.kept_at[j] < q.kept_at[k]);
                assert(p.kept@[j] == s.notes[q.kept_at[j]]);
                assert(p.kept@[k] == s.notes[q.kept_at[k]]);
            }
        }
        let (hold_kept, t, ev) = judge_holds(&p.holds, input.beat, input.held, p.tally, p.events);
        let inv = if self.invincibility - input.frame_time < 0 {
            0
        } else {
            self.invincibility - input.frame_time
        };
        let (hazard_kept, inv, t, hp, ev) = judge_hazards(&self.hazards, input.beat, input.ship, inv, t, p.health, ev);
        let health = clamp(hp);
        let c = if self.countdown.is_none() && health <= 0 {
            Some(GAME_OVER_TIME)
        } else {
            self.countdown
        };
        let countdown = match c {
            Some(t) => Some(if t - input.frame_time < 0 { 0 } else { t - input.frame_time }),
            None => None,
        };
        self.notes = p.kept;
        self.holds = hold_kept;
        self.hazards = hazard_kept;
        self.tally = t;
        self.health = health;
        self.invincibility = inv;
        self.countdown = countdown;
        ev
    }
}

/// How the run stands once the audio is at `position_us` of a song `length_us` long:
/// failed once the game-over countdown has run out, completed once the song has played.
pub open spec fn outcome_of(countdown: Option<int>, position_us: int, length_us: int) -> Outcome {
    if countdown matches Some(t) && t <= 0 {
        Outcome::Failed
    } else if position_us >= length_us {
        Outcome::Completed
    } else {
        Outcome::Playing
    }
}

impl JudgmentState {
    /// How the run stands at audio position `position_us` of a song `length_us` long.
    pub fn outcome(&self, position_us: u64, length_us: u64) -> (r: Outcome)
        ensures
            r == outcome_of(self@.countdown, position_us as int, length_us as int),
    {
        match self.countdown {
            Some(t) => if t <= 0 {
                return Outcome::Failed;
            },
            None => {},
        }
        if position_us >= length_us {
            Outcome::Completed
        } else {
            Outcome::Playing
        }
    }

    /// The audio playback rate, in millionths: 1.0 while playing, then falling linearly to 0
    /// over the game-over countdown.
    pub fn playback_rate(&self) -> (r: u64)
        requires
            self.wf(),
        ensures
            self.countdown is None ==> r == 1_000_000,
            self.countdown matches Some(t) ==> r == t / 3,
            r <= 1_000_000,
    {
        match self.countdown {
            Some(t) => (t / 3) as u64,
            None => 1_000_000,
        }
    }

    /// Whether the score and counters leave room for another frame.
    pub fn has_room(&self) -> (r: bool)
        ensures
            r == self.tally.room(),
    {
        self.tally.has_room()
    }

    /// The lane the autopilot steers to at `beat` from `current`, given the hazards not yet over.
    pub fn autopilot(&self, beat: i64, current: Lane) -> (r: Lane)
        ensures
            r == plan(self.hazards@, beat as int, current),
    {
        plan_lane(&self.hazards, beat, current)
    }
}

/// A frame never adds a note to the active set nor repeats one: the notes active after it
/// are notes active before, each from a position of its own and in their order, so a note
/// judged in the frame is gone for good.
pub proof fn lemma_frame_keeps_notes(s: StateView, inp: FrameInput)
    ensures
        ({
            let at = frame_notes(s, inp).kept_at;
            let n = next_state(s, inp).notes;
            &&& n.len() == at.len()
            &&& forall|j: int| 0 <= j < at.len() ==> 0 <= #[trigger] at[j] < s.notes.len() && n[j] == s.notes[at[j]]
            &&& forall|j: int, k: int| 0 <= j < k < at.len() ==> #[trigger] at[j] < #[trigger] at[k]
        }),
{
    let start = NotePass {
        kept: Seq::empty(),
        kept_at: Seq::empty(),
        holds: s.holds,
        resolved: LaneSet { up: false, down: false, left: false, right: false },
        tally: s.tally,
        health: s.health,
        events: Seq::empty(),
    };
    lemma_judged_notes_leave(s.notes, inp.beat as int, inp.pressed, start);
}

/// Health ends every frame in [0, 500], and the game-over countdown starts exactly once:
/// in the first frame that ends with health 0; once started it is never restarted, and it
/// only runs down, whatever health does afterwards.
pub proof fn lemma_single_countdown(s: StateView, inp: FrameInput)
    requires
        inp.frame_time >= 0,
        s.countdown matches Some(t) ==> t >= 0,
    ensures
        0 <= next_state(s, inp).health <= MAX_HEALTH,
        s.countdown is None ==> (next_state(s, inp).countdown is Some <==> next_state(s, inp).health == 0),
        s.countdown matches Some(t) ==> next_state(s, inp).countdown matches Some(u) && u <= t,
{
}

} // verus!
