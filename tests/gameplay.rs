use beat_of_space::clock::beat_at;
use beat_of_space::engine::{FrameInput, JudgmentState, Outcome, GAME_OVER_TIME};
use beat_of_space::lane::{Lane, LaneSet};
use beat_of_space::scoring::{Judgment, ScoreQuality, ScoreType};
use beat_of_space::song::{Hazard, Note};

fn lanes(up: bool, down: bool, left: bool, right: bool) -> LaneSet {
    LaneSet { up, down, left, right }
}

fn none() -> LaneSet {
    lanes(false, false, false, false)
}

fn frame(beat: i64, pressed: LaneSet, held: LaneSet, ship: Lane, frame_time: i64) -> FrameInput {
    FrameInput { beat, pressed, held, ship, frame_time }
}

fn tap(beat: i64, lane: Lane) -> Note {
    Note { beat, lane, hold: 0 }
}

#[test]
fn beat_clock_at_120_bpm() {
    // 5.015 s at 120 bpm is beat 10.03
    assert_eq!(beat_at(5_015_000, 120_000), 10_030_000);
    assert_eq!(beat_at(0, 120_000), 0);
    // 1 s at 90.5 bpm is 1.508333 beats
    assert_eq!(beat_at(1_000_000, 90_500), 1_508_333);
}

#[test]
fn perfect_hit_scores_1000_and_grows_combo() {
    let mut s = JudgmentState::new(vec![tap(10_000_000, Lane::Up)], vec![]);
    let beat = beat_at(5_015_000, 120_000);
    let ev = s.update(&frame(beat, lanes(true, false, false, false), lanes(true, false, false, false), Lane::Right, 16_000));
    assert_eq!(ev, vec![Judgment { kind: ScoreType::Score(ScoreQuality::Perfect), lane: Lane::Up }]);
    assert_eq!(s.tally.score, 1000);
    assert_eq!(s.tally.combo, 1_050_000);
    assert_eq!(s.tally.perfect, 1);
    assert!(s.notes.is_empty());
    assert_eq!(s.health, 500);
}

#[test]
fn good_hit_scores_800() {
    let mut s = JudgmentState::new(vec![tap(10_000_000, Lane::Up)], vec![]);
    let ev = s.update(&frame(10_080_000, lanes(true, false, false, false), none(), Lane::Right, 16_000));
    assert_eq!(ev, vec![Judgment { kind: ScoreType::Score(ScoreQuality::Good), lane: Lane::Up }]);
    assert_eq!(s.tally.score, 800);
    assert_eq!(s.tally.combo, 1_025_000);
    assert_eq!(s.tally.good, 1);
}

#[test]
fn early_good_hit_uses_distance() {
    let mut s = JudgmentState::new(vec![tap(10_000_000, Lane::Left)], vec![]);
    s.update(&frame(9_920_000, lanes(false, false, true, false), none(), Lane::Right, 16_000));
    assert_eq!(s.tally.good, 1);
    assert_eq!(s.tally.score, 800);
}

#[test]
fn ok_hit_scores_500_and_keeps_combo() {
    let mut s = JudgmentState::new(vec![tap(10_000_000, Lane::Down), tap(11_000_000, Lane::Down)], vec![]);
    s.update(&frame(10_000_000, lanes(false, true, false, false), none(), Lane::Right, 16_000));
    assert_eq!(s.tally.combo, 1_050_000);
    let ev = s.update(&frame(11_200_000, lanes(false, true, false, false), none(), Lane::Right, 16_000));
    assert_eq!(ev, vec![Judgment { kind: ScoreType::Score(ScoreQuality::Okay), lane: Lane::Down }]);
    // 500 * 1.05 = 525
    assert_eq!(s.tally.score, 1000 + 525);
    assert_eq!(s.tally.combo, 1_050_000);
    assert_eq!(s.tally.okay, 1);
}

#[test]
fn unplayed_note_is_missed_after_a_beat() {
    let mut s = JudgmentState::new(vec![tap(10_000_000, Lane::Up)], vec![]);
    let ev = s.update(&frame(11_010_000, none(), none(), Lane::Right, 16_000));
    assert_eq!(ev, vec![Judgment { kind: ScoreType::Miss, lane: Lane::Up }]);
    assert_eq!(s.health, 450);
    assert_eq!(s.tally.combo, 1_000_000);
    assert_eq!(s.tally.missed, 1);
    assert!(s.notes.is_empty());
}

#[test]
fn miss_resets_combo_to_one() {
    let mut s = JudgmentState::new(vec![tap(10_000_000, Lane::Up), tap(20_000_000, Lane::Up)], vec![]);
    s.update(&frame(10_000_000, lanes(true, false, false, false), none(), Lane::Right, 16_000));
    assert_eq!(s.tally.combo, 1_050_000);
    s.update(&frame(21_500_000, none(), none(), Lane::Right, 16_000));
    assert_eq!(s.tally.combo, 1_000_000);
}

#[test]
fn note_far_ahead_is_not_judged() {
    let mut s = JudgmentState::new(vec![tap(10_000_000, Lane::Up)], vec![]);
    let ev = s.update(&frame(9_700_000, none(), none(), Lane::Right, 16_000));
    assert!(ev.is_empty());
    assert_eq!(s.notes.len(), 1);
}

#[test]
fn press_with_nothing_to_hit_is_incorrect() {
    let mut s = JudgmentState::new(vec![tap(10_000_000, Lane::Up)], vec![]);
    s.update(&frame(10_000_000, lanes(true, false, false, false), none(), Lane::Right, 16_000));
    let ev = s.update(&frame(10_500_000, lanes(false, false, false, true), none(), Lane::Right, 16_000));
    assert_eq!(ev, vec![Judgment { kind: ScoreType::Incorrect, lane: Lane::Right }]);
    assert_eq!(s.health, 450);
    assert_eq!(s.tally.combo, 1_000_000);
    assert_eq!(s.tally.incorrect, 1);
}

#[test]
fn one_judgment_per_lane_per_frame() {
    let notes = vec![tap(10_000_000, Lane::Up), tap(10_100_000, Lane::Up)];
    let mut s = JudgmentState::new(notes, vec![]);
    let ev = s.update(&frame(10_050_000, lanes(true, false, false, false), none(), Lane::Right, 16_000));
    assert_eq!(ev.len(), 1);
    assert_eq!(s.notes, vec![tap(10_100_000, Lane::Up)]);
}

#[test]
fn judged_note_never_returns() {
    let notes = vec![tap(10_000_000, Lane::Up), tap(12_000_000, Lane::Left)];
    let mut s = JudgmentState::new(notes, vec![]);
    s.update(&frame(10_000_000, lanes(true, false, false, false), none(), Lane::Right, 16_000));
    assert_eq!(s.notes, vec![tap(12_000_000, Lane::Left)]);
    s.update(&frame(10_010_000, lanes(true, false, false, false), none(), Lane::Right, 16_000));
    assert_eq!(s.notes, vec![tap(12_000_000, Lane::Left)]);
    assert_eq!(s.tally.perfect, 1);
    assert_eq!(s.tally.incorrect, 1);
}

#[test]
fn completed_hold_scores_by_length() {
    let mut s = JudgmentState::new(vec![Note { beat: 10_000_000, lane: Lane::Up, hold: 2_000_000 }], vec![]);
    let up = lanes(true, false, false, false);
    let ev = s.update(&frame(10_000_000, up, up, Lane::Right, 16_000));
    assert!(ev.is_empty());
    assert_eq!(s.holds.len(), 1);
    assert_eq!(s.tally.score, 0);
    s.update(&frame(11_000_000, none(), up, Lane::Right, 16_000));
    assert_eq!(s.holds.len(), 1);
    let ev = s.update(&frame(12_000_000, none(), up, Lane::Right, 16_000));
    assert_eq!(ev, vec![Judgment { kind: ScoreType::Score(ScoreQuality::Perfect), lane: Lane::Up }]);
    // 1500 / 2 * 1.0
    assert_eq!(s.tally.score, 750);
    assert_eq!(s.tally.combo, 1_080_000);
    assert!(s.holds.is_empty());
}

#[test]
fn released_hold_scores_part() {
    let mut s = JudgmentState::new(vec![Note { beat: 10_000_000, lane: Lane::Up, hold: 2_000_000 }], vec![]);
    let up = lanes(true, false, false, false);
    s.update(&frame(10_000_000, up, up, Lane::Right, 16_000));
    let ev = s.update(&frame(10_500_000, none(), none(), Lane::Right, 16_000));
    assert_eq!(ev, vec![Judgment { kind: ScoreType::Score(ScoreQuality::Okay), lane: Lane::Up }]);
    // 1500 / 2 * 0.25 * 1.0 = 187.5, rounded up
    assert_eq!(s.tally.score, 188);
    // 1.0 * 0.98 clamps back to 1.0
    assert_eq!(s.tally.combo, 1_000_000);
    assert!(s.holds.is_empty());
}

#[test]
fn hazard_hits_once_per_invincibility_window() {
    let hz = vec![Hazard { beat: 10_000_000, duration: 2_000_000, lane: Lane::Up }];
    let mut s = JudgmentState::new(vec![], hz);
    // the starting invincibility runs out before the hazard begins
    s.update(&frame(9_000_000, none(), none(), Lane::Up, 300_000));
    assert_eq!(s.invincibility, 0);
    let ev = s.update(&frame(10_000_000, none(), none(), Lane::Up, 16_000));
    assert_eq!(ev, vec![Judgment { kind: ScoreType::Miss, lane: Lane::Up }]);
    assert_eq!(s.health, 425);
    assert_eq!(s.tally.score, -500);
    assert_eq!(s.invincibility, 1_000_000);
    // half a second later: still invincible
    let ev = s.update(&frame(11_000_000, none(), none(), Lane::Up, 500_000));
    assert!(ev.is_empty());
    assert_eq!(s.health, 425);
    // the window has run out: hit again
    let ev = s.update(&frame(11_900_000, none(), none(), Lane::Up, 500_000));
    assert_eq!(ev.len(), 1);
    assert_eq!(s.health, 350);
    // over at beat 12
    s.update(&frame(12_000_000, none(), none(), Lane::Up, 2_000_000));
    assert!(s.hazards.is_empty());
}

#[test]
fn hazard_spares_other_lanes() {
    let hz = vec![Hazard { beat: 10_000_000, duration: 2_000_000, lane: Lane::Up }];
    let mut s = JudgmentState::new(vec![], hz);
    for k in 0..20i64 {
        let ev = s.update(&frame(10_000_000 + k * 100_000, none(), none(), Lane::Right, 100_000));
        assert!(ev.is_empty());
    }
    assert_eq!(s.health, 500);
}

#[test]
fn health_zero_starts_one_countdown() {
    let notes: Vec<Note> = (0..12).map(|k| tap(1_000_000 + k * 10, Lane::Left)).collect();
    let mut s = JudgmentState::new(notes, vec![]);
    s.update(&frame(5_000_000, none(), none(), Lane::Right, 16_000));
    assert_eq!(s.health, 0);
    assert_eq!(s.countdown, Some(GAME_OVER_TIME - 16_000));
    assert_eq!(s.outcome(1, 100), Outcome::Playing);
    // a hit during the countdown does not cancel it
    let mut t = JudgmentState::new(vec![tap(6_000_000, Lane::Up)], vec![]);
    t.health = 0;
    t.countdown = s.countdown;
    t.update(&frame(6_000_000, lanes(true, false, false, false), none(), Lane::Right, 1_000_000));
    assert_eq!(t.health, 15);
    assert_eq!(t.countdown, Some(GAME_OVER_TIME - 1_016_000));
    t.update(&frame(6_100_000, none(), none(), Lane::Right, 2_500_000));
    assert_eq!(t.countdown, Some(0));
    assert_eq!(t.outcome(1, 100), Outcome::Failed);
    assert_eq!(t.playback_rate(), 0);
}

#[test]
fn health_is_clamped_to_500() {
    let mut s = JudgmentState::new(vec![tap(1_000_000, Lane::Up)], vec![]);
    s.update(&frame(1_000_000, lanes(true, false, false, false), none(), Lane::Right, 16_000));
    assert_eq!(s.health, 500);
}

#[test]
fn outcome_and_playback_rate() {
    let s = JudgmentState::new(vec![], vec![]);
    assert_eq!(s.outcome(99, 100), Outcome::Playing);
    assert_eq!(s.outcome(100, 100), Outcome::Completed);
    assert_eq!(s.playback_rate(), 1_000_000);
    let mut t = JudgmentState::new(vec![], vec![]);
    t.countdown = Some(1_500_000);
    assert_eq!(t.playback_rate(), 500_000);
    assert!(t.has_room());
}

#[test]
fn combo_is_capped_at_four() {
    let notes: Vec<Note> = (0..40).map(|k| tap(10_000_000 * (k + 1), Lane::Right)).collect();
    let mut s = JudgmentState::new(notes, vec![]);
    for k in 0..40i64 {
        s.update(&frame(10_000_000 * (k + 1), lanes(false, false, false, true), none(), Lane::Up, 16_000));
        assert!(s.tally.combo >= 1_000_000 && s.tally.combo <= 4_000_000);
    }
    assert_eq!(s.tally.combo, 4_000_000);
    assert_eq!(s.tally.perfect, 40);
}

#[test]
fn notes_are_judged_in_beat_order() {
    let notes = vec![tap(10_100_000, Lane::Up), tap(10_000_000, Lane::Up), tap(5_000_000, Lane::Down)];
    let mut s = JudgmentState::new(notes, vec![]);
    assert_eq!(s.notes, vec![tap(5_000_000, Lane::Down), tap(10_000_000, Lane::Up), tap(10_100_000, Lane::Up)]);
    // the earlier of the two Up notes wins the press
    s.update(&frame(10_050_000, lanes(true, false, false, false), none(), Lane::Right, 16_000));
    assert_eq!(s.notes, vec![tap(10_100_000, Lane::Up)]);
    assert_eq!(s.tally.missed, 1);
    assert_eq!(s.tally.perfect, 1);
}
