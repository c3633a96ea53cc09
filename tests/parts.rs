use beat_of_space::display::with_thousands;
use beat_of_space::lane::{can_move, steer, Lane};
use beat_of_space::planner::{auto_input, is_laser, is_threatened, most_dangerous_note, plan_lane};
use beat_of_space::scoring::{classify, hit_points, hold_points, ScoreQuality};
use beat_of_space::song::{read_hazards, read_notes, Hazard, Note, Song, SongError};
use beat_of_space::tally::Tally;

#[test]
fn lane_codes() {
    assert_eq!(Lane::from_code(1), Some(Lane::Right));
    assert_eq!(Lane::from_code(2), Some(Lane::Left));
    assert_eq!(Lane::from_code(3), Some(Lane::Up));
    assert_eq!(Lane::from_code(4), Some(Lane::Down));
    assert_eq!(Lane::from_code(5), None);
    assert_eq!(Lane::Down.code(), 4);
}

#[test]
fn lane_graph_moves() {
    assert_eq!(can_move(Lane::Right, true), Some(Lane::Up));
    assert_eq!(can_move(Lane::Up, true), Some(Lane::Left));
    assert_eq!(can_move(Lane::Down, true), Some(Lane::Right));
    assert_eq!(can_move(Lane::Left, true), None);
    assert_eq!(can_move(Lane::Right, false), Some(Lane::Down));
    assert_eq!(can_move(Lane::Left, false), Some(Lane::Up));
    assert_eq!(can_move(Lane::Up, false), Some(Lane::Right));
    assert_eq!(can_move(Lane::Down, false), None);
    assert_eq!(steer(Lane::Right, true, false), Lane::Up);
    assert_eq!(steer(Lane::Left, true, false), Lane::Left);
    assert_eq!(steer(Lane::Right, true, true), Lane::Right);
}

#[test]
fn classify_by_distance() {
    assert_eq!(classify(30_000), ScoreQuality::Perfect);
    assert_eq!(classify(-50_000), ScoreQuality::Perfect);
    assert_eq!(classify(-80_000), ScoreQuality::Good);
    assert_eq!(classify(100_000), ScoreQuality::Good);
    assert_eq!(classify(100_001), ScoreQuality::Okay);
}

#[test]
fn points_formulas() {
    assert_eq!(hit_points(ScoreQuality::Perfect, 1_050_000), 1050);
    assert_eq!(hit_points(ScoreQuality::Good, 1_025_000), 820);
    // 500 * 1.0001 = 500.05, rounded down
    assert_eq!(hit_points(ScoreQuality::Okay, 1_000_100), 500);
    // 800 * 1.000625 = 800.5, halves round up
    assert_eq!(hit_points(ScoreQuality::Good, 1_000_625), 801);
    assert_eq!(hold_points(2_000_000, 2_000_000, 1_000_000), 750);
    assert_eq!(hold_points(3_000_000, 3_000_000, 2_000_000), 1000);
    assert_eq!(hold_points(2_000_000, 500_000, 1_000_000), 188);
    assert_eq!(hold_points(2_000_000, 0, 4_000_000), 0);
}

#[test]
fn read_notes_accepts_valid_entries() {
    let v = read_notes(&vec![(1_000_000, 3, 0), (2_000_000, 1, 500_000)]).unwrap();
    assert_eq!(v, vec![Note { beat: 1_000_000, lane: Lane::Up, hold: 0 }, Note { beat: 2_000_000, lane: Lane::Right, hold: 500_000 }]);
    assert_eq!(read_notes(&vec![]), Ok(vec![]));
}

#[test]
fn read_notes_refuses_unknown_lane() {
    let r = read_notes(&vec![(1_000_000, 3, 0), (2_000_000, 7, 0), (3_000_000, 9, 0)]);
    assert_eq!(r, Err(SongError::UnknownLane { index: 1, code: 7 }));
}

#[test]
fn read_notes_refuses_negative_hold() {
    let r = read_notes(&vec![(1_000_000, 3, -1)]);
    assert_eq!(r, Err(SongError::NegativeLength { index: 0 }));
}

#[test]
fn read_hazards_checks_entries() {
    let v = read_hazards(&vec![(10_000_000, 2_000_000, 3)]).unwrap();
    assert_eq!(v, vec![Hazard { beat: 10_000_000, duration: 2_000_000, lane: Lane::Up }]);
    assert_eq!(read_hazards(&vec![(1, 1, 0)]), Err(SongError::UnknownLane { index: 0, code: 0 }));
    assert_eq!(read_hazards(&vec![(1, 1, 1), (1, -5, 1)]), Err(SongError::NegativeLength { index: 1 }));
}

#[test]
fn song_load_and_high_score() {
    let mut song = Song::load(
        "a.wav".to_string(),
        60_000_000,
        120_000,
        "me".to_string(),
        100,
        &vec![(1, 1, 0)],
        &vec![(2, 3, 4)],
    )
    .unwrap();
    assert_eq!(song.notes.len(), 1);
    assert_eq!(song.attacks, vec![Hazard { beat: 2, duration: 3, lane: Lane::Down }]);
    song.record_score(50);
    assert_eq!(song.high_score, 100);
    song.record_score(150);
    assert_eq!(song.high_score, 150);
    let bad = Song::load(String::new(), 0, 0, String::new(), 0, &vec![], &vec![(2, 3, 8)]);
    assert!(matches!(bad, Err(SongError::UnknownLane { index: 0, code: 8 })));
}

#[test]
fn danger_and_lasers() {
    let hz = vec![
        Hazard { beat: 20_000_000, duration: 1_000_000, lane: Lane::Up },
        Hazard { beat: 12_000_000, duration: 1_000_000, lane: Lane::Up },
        Hazard { beat: 15_000_000, duration: 1_000_000, lane: Lane::Left },
    ];
    assert_eq!(most_dangerous_note(&hz, Lane::Up), Some(12_000_000));
    assert_eq!(most_dangerous_note(&hz, Lane::Down), None);
    assert!(is_laser(&hz, 12_000_000, Lane::Up));
    assert!(!is_laser(&hz, 11_999_999, Lane::Up));
    assert!(is_threatened(&hz, 7_000_000, Lane::Up));
    assert!(!is_threatened(&hz, 6_999_999, Lane::Up));
}

#[test]
fn planner_leaves_active_hazard_for_clear_lane() {
    // Right is lasered and Up is hit later; Left and Down have nothing, and Left,
    // two moves up, is found first
    let hz = vec![
        Hazard { beat: 10_000_000, duration: 4_000_000, lane: Lane::Right },
        Hazard { beat: 30_000_000, duration: 1_000_000, lane: Lane::Up },
    ];
    let to = plan_lane(&hz, 11_000_000, Lane::Right);
    assert_eq!(to, Lane::Left);
    assert!(most_dangerous_note(&hz, to).is_none());
}

#[test]
fn planner_stays_when_not_threatened() {
    let hz = vec![Hazard { beat: 30_000_000, duration: 1_000_000, lane: Lane::Right }];
    assert_eq!(plan_lane(&hz, 1_000_000, Lane::Right), Lane::Right);
}

#[test]
fn planner_prefers_latest_threat() {
    // Up is lasered now; Left is hit at 40, Right at 20, and Down, two moves down, never
    let hz = vec![
        Hazard { beat: 10_000_000, duration: 5_000_000, lane: Lane::Up },
        Hazard { beat: 40_000_000, duration: 1_000_000, lane: Lane::Left },
        Hazard { beat: 20_000_000, duration: 1_000_000, lane: Lane::Right },
    ];
    assert_eq!(plan_lane(&hz, 11_000_000, Lane::Up), Lane::Down);
    let hz2 = vec![
        Hazard { beat: 10_000_000, duration: 5_000_000, lane: Lane::Up },
        Hazard { beat: 40_000_000, duration: 1_000_000, lane: Lane::Left },
        Hazard { beat: 20_000_000, duration: 1_000_000, lane: Lane::Right },
        Hazard { beat: 25_000_000, duration: 1_000_000, lane: Lane::Down },
    ];
    assert_eq!(plan_lane(&hz2, 11_000_000, Lane::Up), Lane::Left);
}

#[test]
fn score_text_groups_thousands() {
    let mut t = Tally::new();
    assert_eq!(t.score_text(), "0");
    t.score = 1_234_567;
    assert_eq!(t.score_text(), "1,234,567");
    t.score = 999;
    assert_eq!(t.score_text(), "999");
    t.score = 1000;
    assert_eq!(t.score_text(), "1,000");
    t.score = -500;
    assert_eq!(t.score_text(), "-500");
    t.score = -12_345;
    assert_eq!(t.score_text(), "-12,345");
}

#[test]
fn autopilot_presses_due_notes_and_holds_holds() {
    let notes = vec![
        Note { beat: 10_020_000, lane: Lane::Up, hold: 0 },
        Note { beat: 10_050_000, lane: Lane::Down, hold: 0 },
        Note { beat: 9_800_000, lane: Lane::Left, hold: 0 },
        Note { beat: 9_700_000, lane: Lane::Right, hold: 0 },
    ];
    let holds = vec![Note { beat: 9_000_000, lane: Lane::Right, hold: 4_000_000 }];
    let (pressed, held) = auto_input(&notes, &holds, 10_000_000);
    assert!(pressed.up && !pressed.down && pressed.left && !pressed.right);
    assert!(held.up && !held.down && held.left && held.right);
}

#[test]
fn with_thousands_groups_counts() {
    assert_eq!(with_thousands(12), "12");
    assert_eq!(with_thousands(1_000_000), "1,000,000");
    assert_eq!(with_thousands(-1_000), "-1,000");
}
