//! The autopilot: which lanes it presses and holds, and a greedy search along the lane
//! graph for the lane whose next hazard is farthest away.
use vstd::prelude::*;
use crate::hazards::{damaging, warning, is_damaging, is_warning};
use crate::lane::{Lane, LaneSet, can_move, move_of};
use crate::notes::{NOTE_CORRECT_RANGE, in_window};
use crate::song::{Hazard, Note};

verus! {

/// The first beat of the earliest hazard in `lane` among `hazards`; `None` where the
/// lane has none, which counts as the safest.
pub open spec fn danger(hazards: Seq<Hazard>, lane: Lane) -> Option<i64>
    decreases hazards.len(),
{
    if hazards.len() == 0 {
        None
    } else {
        let d = danger(hazards.drop_last(), lane);
        let h = hazards.last();
        if h.lane == lane && (d is None || h.beat < d->Some_0) {
            Some(h.beat)
        } else {
            d
        }
    }
}

/// Threat `a` comes strictly sooner than threat `b` (no threat is the latest).
pub open spec fn sooner(a: Option<i64>, b: Option<i64>) -> bool {
    match (a, b) {
        (Some(x), Some(y)) => x < y,
        (Some(_), None) => true,
        (None, _) => false,
    }
}

/// Some hazard in `lane` has begun by `beat`.
pub open spec fn lasered(hazards: Seq<Hazard>, beat: int, lane: Lane) -> bool {
    exists|i: int| 0 <= i < hazards.len() && #[trigger] hazards[i].lane == lane && hazards[i].beat <= beat
}

/// Some hazard in `lane` is announced or damaging at `beat`.
pub open spec fn threatened(hazards: Seq<Hazard>, beat: int, lane: Lane) -> bool {
    exists|i: int|
        0 <= i < hazards.len() && #[trigger] hazards[i].lane == lane && (warning(hazards[i], beat)
            || damaging(hazards[i], beat))
}

/// Up to `steps` moves from `pos` in one direction, stopping before a lane that is
/// lasered or where no edge leaves; `best` is the safest lane found so far and its threat,
/// replaced only by a strictly safer one.
pub open spec fn walk(
    hazards: Seq<Hazard>,
    beat: int,
    pos: Lane,
    up: bool,
    steps: nat,
    best: (Option<i64>, Lane),
) -> (Option<i64>, Lane)
    decreases steps,
{
    if steps == 0 {
        best
    } else {
        match move_of(pos, up) {
            None => best,
            Some(next) => if lasered(hazards, beat, next) {
                best
            } else {
                let d = danger(hazards, next);
                walk(hazards, beat, next, up, (steps - 1) as nat, if sooner(best.0, d) { (d, next) } else { best })
            },
        }
    }
}

/// The lanes that a walk of `steps` moves from `pos` reaches.
pub open spec fn visits(hazards: Seq<Hazard>, beat: int, pos: Lane, up: bool, steps: nat, lane: Lane) -> bool
    decreases steps,
{
    if steps == 0 {
        false
    } else {
        match move_of(pos, up) {
            None => false,
            Some(next) => !lasered(hazards, beat, next) && (next == lane || visits(
                hazards,
                beat,
                next,
                up,
                (steps - 1) as nat,
                lane,
            )),
        }
    }
}

/// How many moves the planner tries in each direction.
pub const SEARCH_STEPS: u64 = 3;

/// The lane the autopilot steers to at `beat` from `current`: where the current lane is
/// threatened, the safest lane found by walking up to three moves up and then up to three
/// moves down, keeping the first found among equals; otherwise the current lane.
pub open spec fn plan(hazards: Seq<Hazard>, beat: int, current: Lane) -> Lane {
    if !threatened(hazards, beat, current) {
        current
    } else {
        let b0 = (danger(hazards, current), current);
        let b1 = walk(hazards, beat, current, true, SEARCH_STEPS as nat, b0);
        walk(hazards, beat, current, false, SEARCH_STEPS as nat, b1).1
    }
}

/// The first beat of the earliest hazard in `check` (`None` where it has none).
pub fn most_dangerous_note(hazards: &Vec<Hazard>, check: Lane) -> (r: Option<i64>)
    ensures
        r == danger(hazards@, check),
{
    let mut d: Option<i64> = None;
    let mut i: usize = 0;
    while i < hazards.len()
        invariant
            i <= hazards@.len(),
            d == danger(hazards@.take(i as int), check),
        decreases hazards@.len() - i,
    {
        let h = hazards[i];
        assert(hazards@.take(i + 1).drop_last() =~= hazards@.take(i as int));
        if h.lane == check {
            match d {
                None => d = Some(h.beat),
                Some(x) => if h.beat < x {
                    d = Some(h.beat);
                },
            }
        }
        i = i + 1;
    }
    assert(hazards@.take(i as int) =~= hazards@);
    d
}

/// Whether some hazard in `check` has begun by `beat`.
pub fn is_laser(hazards: &Vec<Hazard>, beat: i64, check: Lane) -> (r: bool)
    ensures
        r == lasered(hazards@, beat as int, check),
{
    let mut i: usize = 0;
    while i < hazards.len()
        invariant
            i <= hazards@.len(),
            forall|j: int| 0 <= j < i ==> !(#[trigger] hazards@[j].lane == check && hazards@[j].beat <= beat),
        decreases hazards@.len() - i,
    {
        if hazards[i].lane == check && hazards[i].beat <= beat {
            return true;
        }
        i = i + 1;
    }
    false
}

/// Whether some hazard in `check` is announced or damaging at `beat`.
pub fn is_threatened(hazards: &Vec<Hazard>, beat: i64, check: Lane) -> (r: bool)
    ensures
        r == threatened(hazards@, beat as int, check),
{
    let mut i: usize = 0;
    while i < hazards.len()
        invariant
            i <= hazards@.len(),
            forall|j: int|
                0 <= j < i ==> !(#[trigger] hazards@[j].lane == check && (warning(hazards@[j], beat as int)
                    || damaging(hazards@[j], beat as int))),
        decreases hazards@.len() - i,
    {
        if hazards[i].lane == check && (is_warning(&hazards[i], beat) || is_damaging(&hazards[i], beat)) {
            return true;
        }
        i = i + 1;
    }
    false
}

fn is_sooner(a: Option<i64>, b: Option<i64>) -> (r: bool)
    ensures
        r == sooner(a, b),
{
    match (a, b) {
        (Some(x), Some(y)) => x < y,
        (Some(_), None) => true,
        (None, _) => false,
    }
}

fn walk_lanes(
    hazards: &Vec<Hazard>,
    beat: i64,
    pos: Lane,
    up: bool,
    steps: u64,
    best: (Option<i64>, Lane),
) -> (r: (Option<i64>, Lane))
    ensures
        r == walk(hazards@, beat as int, pos, up, steps as nat, best),
    decreases steps,
{
    if steps == 0 {
        return best;
    }
    match can_move(pos, up) {
        None => best,
        Some(next) => {
            if is_laser(hazards, beat, next) {
                best
            } else {
                let d = most_dangerous_note(hazards, next);
                let b = if is_sooner(best.0, d) {
                    (d, next)
                } else {
                    best
                };
                walk_lanes(hazards, beat, next, up, steps - 1, b)
            }
        },
    }
}

/// The lane the autopilot steers to at `beat` from `current`.
pub fn plan_lane(hazards: &Vec<Hazard>, beat: i64, current: Lane) -> (r: Lane)
    ensures
        r == plan(hazards@, beat as int, current),
{
    if !is_threatened(hazards, beat, current) {
        return current;
    }
    let b0 = (most_dangerous_note(hazards, current), current);
    let b1 = walk_lanes(hazards, beat, current, true, SEARCH_STEPS, b0);
    walk_lanes(hazards, beat, current, false, SEARCH_STEPS, b1).1
}

/// How far ahead of its beat the autopilot plays a note, in microbeats (a third of the
/// Perfect window).
pub const AUTO_LEAD: i64 = 33_333;

/// The autopilot presses `lane` at `beat`: some note in it is within the hit window and
/// less than `AUTO_LEAD` ahead.
pub open spec fn auto_pressed(notes: Seq<Note>, beat: int, lane: Lane) -> bool {
    exists|i: int|
        0 <= i < notes.len() && #[trigger] notes[i].lane == lane && in_window(notes[i], beat) && notes[i].beat
            - beat < AUTO_LEAD
}

/// The autopilot holds `lane` down at `beat`: it presses it, or a hold is in progress there.
pub open spec fn auto_held(notes: Seq<Note>, holds: Seq<Note>, beat: int, lane: Lane) -> bool {
    auto_pressed(notes, beat, lane) || exists|i: int| 0 <= i < holds.len() && #[trigger] holds[i].lane == lane
}

/// Among the first `k` notes, one in `lane` is within the hit window and less than
/// `AUTO_LEAD` ahead of `beat`.
pub open spec fn auto_pressed_upto(notes: Seq<Note>, beat: int, k: int, lane: Lane) -> bool {
    exists|i: int|
        0 <= i < k && #[trigger] notes[i].lane == lane && in_window(notes[i], beat) && notes[i].beat - beat
            < AUTO_LEAD
}

/// Among the first `k` holds, one is in `lane`.
pub open spec fn held_upto(holds: Seq<Note>, k: int, lane: Lane) -> bool {
    exists|i: int| 0 <= i < k && #[trigger] holds[i].lane == lane
}

/// The lanes the autopilot presses and holds at `beat`, given the active notes and holds.
pub fn auto_input(notes: &Vec<Note>, holds: &Vec<Note>, beat: i64) -> (r: (LaneSet, LaneSet))
    ensures
        forall|l: Lane| r.0.has(l) == auto_pressed(notes@, beat as int, l),
        forall|l: Lane| r.1.has(l) == auto_held(notes@, holds@, beat as int, l),
{
    let mut pressed = LaneSet::none();
    let mut i: usize = 0;
    while i < notes.len()
        invariant
            i <= notes@.len(),
            forall|l: Lane| pressed.has(l) == auto_pressed_upto(notes@, beat as int, i as int, l),
        decreases notes@.len() - i,
    {
        let n = notes[i];
        let d: i128 = n.beat as i128 - beat as i128;
        let hit = -(NOTE_CORRECT_RANGE as i128) <= d && d <= NOTE_CORRECT_RANGE as i128 && d < AUTO_LEAD as i128;
        let ghost before = pressed;
        if hit {
            pressed.insert(n.lane);
        }
        proof {
            assert forall|l: Lane| pressed.has(l) == auto_pressed_upto(notes@, beat as int, i + 1, l) by {
                if hit && n.lane == l {
                    assert(notes@[i as int].lane == l);
                } else {
                    assert(pressed.has(l) == before.has(l));
                    if auto_pressed_upto(notes@, beat as int, i + 1, l) {
                        let j = choose|j: int|
                            0 <= j < i + 1 && #[trigger] notes@[j].lane == l && in_window(notes@[j], beat as int)
                                && notes@[j].beat - beat < AUTO_LEAD;
                        assert(j != i);
                    }
                }
            }
        }
        i = i + 1;
    }
    let mut held = pressed;
    let mut k: usize = 0;
    while k < holds.len()
        invariant
            k <= holds@.len(),
            forall|l: Lane| pressed.has(l) == auto_pressed(notes@, beat as int, l),
            forall|l: Lane| held.has(l) == (pressed.has(l) || held_upto(holds@, k as int, l)),
        decreases holds@.len() - k,
    {
        let lane = holds[k].lane;
        let ghost before = held;
        held.insert(lane);
        proof {
            assert forall|l: Lane| held.has(l) == (pressed.has(l) || held_upto(holds@, k + 1, l)) by {
                if l == lane {
                    assert(holds@[k as int].lane == l);
                } else {
                    assert(held.has(l) == before.has(l));
                    if held_upto(holds@, k + 1, l) {
                        let j = choose|j: int| 0 <= j < k + 1 && #[trigger] holds@[j].lane == l;
                        assert(j != k);
                    }
                }
            }
        }
        k = k + 1;
    }
    (pressed, held)
}

/// A lane has no threat exactly when no hazard lies in it.
pub proof fn lemma_no_danger(hazards: Seq<Hazard>, lane: Lane)
    ensures
        danger(hazards, lane) is None <==> forall|i: int|
            0 <= i < hazards.len() ==> #[trigger] hazards[i].lane != lane,
    decreases hazards.len(),
{
    if hazards.len() > 0 {
        let init = hazards.drop_last();
        lemma_no_danger(init, lane);
        assert forall|i: int| 0 <= i < init.len() implies #[trigger] init[i] == hazards[i] by {}
        if danger(hazards, lane) is None {
            assert forall|i: int| 0 <= i < hazards.len() implies #[trigger] hazards[i].lane != lane by {
                if i < init.len() {
                    assert(init[i] == hazards[i]);
                }
            }
        }
    }
}

/// A walk ends on a lane at least as safe as where it started and as every lane it visits,
/// and, where the threat it starts with is that of its lane, ends with the threat of its lane.
pub proof fn lemma_walk_safest(
    hazards: Seq<Hazard>,
    beat: int,
    pos: Lane,
    up: bool,
    steps: nat,
    best: (Option<i64>, Lane),
)
    ensures
        !sooner(walk(hazards, beat, pos, up, steps, best).0, best.0),
        forall|lane: Lane|
            #[trigger] visits(hazards, beat, pos, up, steps, lane) ==> !sooner(
                walk(hazards, beat, pos, up, steps, best).0,
                danger(hazards, lane),
            ),
        best.0 == danger(hazards, best.1) ==> walk(hazards, beat, pos, up, steps, best).0 == danger(
            hazards,
            walk(hazards, beat, pos, up, steps, best).1,
        ),
    decreases steps,
{
    if steps > 0 {
        match move_of(pos, up) {
            None => {},
            Some(next) => {
                if !lasered(hazards, beat, next) {
                    let d = danger(hazards, next);
                    let b = if sooner(best.0, d) { (d, next) } else { best };
                    lemma_walk_safest(hazards, beat, next, up, (steps - 1) as nat, b);
                    let r = walk(hazards, beat, pos, up, steps, best);
                    assert(r == walk(hazards, beat, next, up, (steps - 1) as nat, b));
                    assert forall|lane: Lane| #[trigger] visits(hazards, beat, pos, up, steps, lane) implies !sooner(
                        r.0,
                        danger(hazards, lane),
                    ) by {
                        if lane != next {
                            assert(visits(hazards, beat, next, up, (steps - 1) as nat, lane));
                        }
                    }
                }
            },
        }
    }
}

/// When a hazard is damaging the current lane and the search can reach a lane with no
/// hazard at all, the autopilot steers to a lane with no hazard at all, so to one with no
/// hazard announced or damaging.
pub proof fn lemma_planner_avoids_hazards(hazards: Seq<Hazard>, beat: int, current: Lane, clear: Lane)
    requires
        exists|i: int| 0 <= i < hazards.len() && #[trigger] hazards[i].lane == current && damaging(hazards[i], beat),
        forall|i: int| 0 <= i < hazards.len() ==> #[trigger] hazards[i].lane != clear,
        visits(hazards, beat, current, true, SEARCH_STEPS as nat, clear) || visits(
            hazards,
            beat,
            current,
            false,
            SEARCH_STEPS as nat,
            clear,
        ),
    ensures
        forall|i: int| 0 <= i < hazards.len() ==> #[trigger] hazards[i].lane != plan(hazards, beat, current),
        !threatened(hazards, beat, plan(hazards, beat, current)),
{
    let b0 = (danger(hazards, current), current);
    let b1 = walk(hazards, beat, current, true, SEARCH_STEPS as nat, b0);
    let b2 = walk(hazards, beat, current, false, SEARCH_STEPS as nat, b1);
    lemma_no_danger(hazards, clear);
    lemma_walk_safest(hazards, beat, current, true, SEARCH_STEPS as nat, b0);
    lemma_walk_safest(hazards, beat, current, false, SEARCH_STEPS as nat, b1);
    assert(threatened(hazards, beat, current));
    assert(b2.0 is None);
    lemma_no_danger(hazards, b2.1);
}

} // verus!
