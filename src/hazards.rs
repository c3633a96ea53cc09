//! Lane hazards: their warning window, their damaging span, and collisions with the ship.
use vstd::prelude::*;
use crate::health::HEALTH_LOSS_LASER;
use crate::lane::Lane;
use crate::scoring::{BEAT, Judgment, ScoreType};
use crate::song::Hazard;
use crate::tally::{Tally, TallyView, after_collision, HEADROOM, COUNT_LIMIT};

verus! {

/// How long before its first beat a hazard is announced, in microbeats (5 beats).
pub const WARNING_BEATS: i64 = 5 * BEAT;

/// How long the ship cannot be hit again after a collision, in microseconds (1 s).
pub const INVINCIBILITY_TIME: i64 = 1_000_000;

/// The hazard has run its course at `beat` and leaves the active set.
pub open spec fn expired(h: Hazard, beat: int) -> bool {
    h.beat + h.duration <= beat
}

/// The hazard damages its lane at `beat`.
pub open spec fn damaging(h: Hazard, beat: int) -> bool {
    h.beat <= beat && !expired(h, beat)
}

/// The hazard is announced but not yet damaging at `beat`.
pub open spec fn warning(h: Hazard, beat: int) -> bool {
    h.beat - WARNING_BEATS <= beat <= h.beat
}

/// What a frame's hazard pass has produced so far.
pub struct HazardPass {
    /// Hazards still active, in their order.
    pub kept: Seq<Hazard>,
    /// Microseconds of invincibility left.
    pub invincibility: int,
    pub tally: TallyView,
    pub health: int,
    pub events: Seq<Judgment>,
    /// Collisions so far this frame.
    pub collisions: int,
}

/// The pass after the hazard `h` is looked at with the ship in lane `ship`.
pub open spec fn hazard_step(p: HazardPass, h: Hazard, beat: int, ship: Lane) -> HazardPass {
    if expired(h, beat) {
        p
    } else if damaging(h, beat) && ship == h.lane && p.invincibility <= 0 {
        HazardPass {
            kept: p.kept.push(h),
            invincibility: INVINCIBILITY_TIME as int,
            tally: after_collision(p.tally),
            health: p.health - HEALTH_LOSS_LASER,
            events: p.events.push(Judgment { kind: ScoreType::Miss, lane: h.lane }),
            collisions: p.collisions + 1,
        }
    } else {
        HazardPass { kept: p.kept.push(h), ..p }
    }
}

/// The pass over `hazards`, in order, starting from `start`.
pub open spec fn hazard_pass(hazards: Seq<Hazard>, beat: int, ship: Lane, start: HazardPass) -> HazardPass
    decreases hazards.len(),
{
    if hazards.len() == 0 {
        start
    } else {
        hazard_step(hazard_pass(hazards.drop_last(), beat, ship, start), hazards.last(), beat, ship)
    }
}

/// Whether the hazard is damaging at `beat`.
pub fn is_damaging(h: &Hazard, beat: i64) -> (r: bool)
    ensures
        r == damaging(*h, beat as int),
{
    (h.beat as i128) <= (beat as i128) && (h.beat as i128) + (h.duration as i128) > (beat as i128)
}

/// Whether the hazard is in its warning window at `beat`.
pub fn is_warning(h: &Hazard, beat: i64) -> (r: bool)
    ensures
        r == warning(*h, beat as int),
{
    (h.beat as i128) - (WARNING_BEATS as i128) <= (beat as i128) && (beat as i128) <= (h.beat as i128)
}

/// Drops the expired hazards and applies the damaging ones to the ship in lane `ship`,
/// given the invincibility left this frame: a collision costs health and score and
/// starts a new invincibility window, so that a sustained hazard hits once per window.
pub fn judge_hazards(
    hazards: &Vec<Hazard>,
    beat: i64,
    ship: Lane,
    invincibility: i64,
    tally: Tally,
    health: i128,
    events: Vec<Judgment>,
) -> (r: (Vec<Hazard>, i64, Tally, i128, Vec<Judgment>))
    requires
        hazards@.len() <= COUNT_LIMIT,
        0 <= invincibility <= INVINCIBILITY_TIME,
        -HEADROOM / 2 <= tally.score <= HEADROOM / 2,
        -HEADROOM / 2 <= health <= HEADROOM / 2,
    ensures
        ({
            let q = hazard_pass(
                hazards@,
                beat as int,
                ship,
                HazardPass {
                    kept: Seq::empty(),
                    invincibility: invincibility as int,
                    tally: tally@,
                    health: health as int,
                    events: events@,
                    collisions: 0,
                },
            );
            &&& q.kept == r.0@
            &&& q.invincibility == r.1
            &&& q.tally == r.2@
            &&& q.health == r.3
            &&& q.events == r.4@
        }),
        0 <= r.1 <= INVINCIBILITY_TIME,
        r.0@.len() <= hazards@.len(),
        r.2.combo == tally.combo,
        r.2.perfect == tally.perfect,
        r.2.good == tally.good,
        r.2.okay == tally.okay,
        r.2.incorrect == tally.incorrect,
        r.2.missed == tally.missed,
        tally.score - 500 * hazards@.len() <= r.2.score <= tally.score,
        health - 75 * hazards@.len() <= r.3 <= health,
{
    let ghost start = HazardPass {
        kept: Seq::empty(),
        invincibility: invincibility as int,
        tally: tally@,
        health: health as int,
        events: events@,
        collisions: 0,
    };
    let mut kept: Vec<Hazard> = Vec::new();
    let mut inv = invincibility;
    let mut t = tally;
    let mut hp = health;
    let mut ev = events;
    let ghost mut collisions: int = 0;
    let mut i: usize = 0;
    while i < hazards.len()
        invariant
            i <= hazards@.len(),
            hazards@.len() <= COUNT_LIMIT,
            (HazardPass {
                kept: kept@,
                invincibility: inv as int,
                tally: t@,
                health: hp as int,
                events: ev@,
                collisions,
            }) == hazard_pass(hazards@.take(i as int), beat as int, ship, start),
            0 <= inv <= INVINCIBILITY_TIME,
            kept@.len() <= i,
            t.combo == tally.combo,
            t.perfect == tally.perfect,
            t.good == tally.good,
            t.okay == tally.okay,
            t.incorrect == tally.incorrect,
            t.missed == tally.missed,
            tally.score - 500 * i <= t.score <= tally.score,
            health - 75 * i <= hp <= health,
            -HEADROOM / 2 <= tally.score <= HEADROOM / 2,
            -HEADROOM / 2 <= health <= HEADROOM / 2,
        decreases hazards@.len() - i,
    {
        let h = hazards[i];
        assert(hazards@.take(i + 1).drop_last() =~= hazards@.take(i as int));
        assert(hazards@.take(i + 1).last() == h);
        if (h.beat as i128) + (h.duration as i128) <= (beat as i128) {
        } else if is_damaging(&h, beat) && ship == h.lane && inv <= 0 {
            kept.push(h);
            inv = INVINCIBILITY_TIME;
            t.record_collision();
            hp = hp - HEALTH_LOSS_LASER as i128;
            ev.push(Judgment { kind: ScoreType::Miss, lane: h.lane });
            proof {
                collisions = collisions + 1;
            }
        } else {
            kept.push(h);
        }
        i = i + 1;
    }
    assert(hazards@.take(i as int) =~= hazards@);
    (kept, inv, t, hp, ev)
}

/// Some hazard among `hazards` damages `lane` at `beat`.
pub open spec fn lane_damaged(hazards: Seq<Hazard>, beat: int, lane: Lane) -> bool {
    exists|i: int| 0 <= i < hazards.len() && #[trigger] hazards[i].lane == lane && damaging(hazards[i], beat)
}

/// The ship is hit at most once per invincibility window: while invincible it is not hit at
/// all; otherwise it is hit exactly once when a hazard damages its lane, which starts a new
/// one-second window, and not at all when none does (in particular when the hazards are in
/// other lanes).
pub proof fn lemma_one_collision_per_window(hazards: Seq<Hazard>, beat: int, ship: Lane, start: HazardPass)
    ensures
        ({
            let r = hazard_pass(hazards, beat, ship, start);
            &&& start.invincibility > 0 ==> r.collisions == start.collisions && r.invincibility
                == start.invincibility
            &&& start.invincibility <= 0 && lane_damaged(hazards, beat, ship) ==> r.collisions
                == start.collisions + 1 && r.invincibility == INVINCIBILITY_TIME
            &&& start.invincibility <= 0 && !lane_damaged(hazards, beat, ship) ==> r.collisions
                == start.collisions && r.invincibility == start.invincibility
        }),
    decreases hazards.len(),
{
    if hazards.len() > 0 {
        let init = hazards.drop_last();
        let h = hazards.last();
        lemma_one_collision_per_window(init, beat, ship, start);
        assert forall|i: int| 0 <= i < init.len() implies #[trigger] init[i] == hazards[i] by {}
        if lane_damaged(init, beat, ship) {
            let i = choose|i: int| 0 <= i < init.len() && #[trigger] init[i].lane == ship && damaging(init[i], beat);
            assert(hazards[i] == init[i]);
        }
        if lane_damaged(hazards, beat, ship) && !lane_damaged(init, beat, ship) {
            let i = choose|i: int| 0 <= i < hazards.len() && #[trigger] hazards[i].lane == ship && damaging(hazards[i], beat);
            if i < init.len() {
                assert(init[i] == hazards[i]);
            }
        }
    }
}

} // verus!
