use focus_timer::achievements::AchievementsData;
use focus_timer::achievements::{
    needs_streak_rescan, recalculate_streak_on_startup, update_streak_on_completion,
};
use focus_timer::session::SessionStatus;
use focus_timer::streak::{calculate_streak, has_complete_session};

#[test]
fn test_streak_three_consecutive_days() {
    // today and the prior two days each count; nothing older exists
    let scan = vec![true, true, true];
    let (current, longest) = calculate_streak(&scan, 0);
    assert_eq!(current, 3);
    assert_eq!(longest, 3);
}

#[test]
fn test_streak_today_not_yet_logged() {
    // no record today, but yesterday and the day before count
    let scan = vec![false, true, true, false];
    let (current, _) = calculate_streak(&scan, 0);
    assert_eq!(current, 2);
}

#[test]
fn test_streak_stops_at_gap() {
    // a gap two days back ends the run
    let scan = vec![true, true, false, true, true];
    let (current, _) = calculate_streak(&scan, 0);
    assert_eq!(current, 2);
}

#[test]
fn test_streak_zero_when_today_and_yesterday_missing() {
    let scan = vec![false, false, true, true];
    let (current, longest) = calculate_streak(&scan, 10);
    assert_eq!(current, 0);
    assert_eq!(longest, 10);
}

#[test]
fn test_streak_longest_keeps_stored_maximum() {
    let scan = vec![true, false];
    let (current, longest) = calculate_streak(&scan, 8);
    assert_eq!(current, 1);
    assert_eq!(longest, 8);
}

#[test]
fn test_has_complete_session_needs_glyph_and_word() {
    let with_both = "- 09:15 - 09:40 \u{2713} Complete (25m)";
    let word_only = "- 09:15 - 09:40 Complete (25m)";
    let glyph_only = "- 09:15 - 09:40 \u{2713} (25m)";
    let neither = "- 09:15 - 09:29 \u{25cb} Interrupted (14m)";
    assert!(has_complete_session(with_both));
    assert!(!has_complete_session(word_only));
    assert!(!has_complete_session(glyph_only));
    assert!(!has_complete_session(neither));
}

#[test]
fn test_update_streak_skips_interrupted_sessions() {
    let mut data = AchievementsData {
        current_streak: 5,
        longest_streak: 10,
        total_sessions: 20,
        ..Default::default()
    };
    let today = "2026-01-29".to_string();
    let persist = update_streak_on_completion(
        &mut data,
        SessionStatus::Interrupted,
        &today,
        &vec![false],
    );
    assert!(!persist);
    assert_eq!(data.current_streak, 5);
    assert_eq!(data.longest_streak, 10);
    assert_eq!(data.total_sessions, 20);
    assert!(data.last_streak_date.is_none());
}

#[test]
fn test_update_streak_cheap_path_same_day() {
    let mut data = AchievementsData {
        current_streak: 3,
        longest_streak: 7,
        total_sessions: 11,
        last_streak_date: Some("2026-01-29".to_string()),
        ..Default::default()
    };
    let today = "2026-01-29".to_string();
    assert!(!needs_streak_rescan(&data, SessionStatus::Complete, &today));
    let persist =
        update_streak_on_completion(&mut data, SessionStatus::Complete, &today, &vec![false]);
    assert!(persist);
    assert_eq!(data.current_streak, 3);
    assert_eq!(data.longest_streak, 7);
    assert_eq!(data.total_sessions, 12);
}

#[test]
fn test_update_streak_recalculates_on_new_day() {
    let mut data = AchievementsData {
        current_streak: 1,
        longest_streak: 2,
        total_sessions: 4,
        last_streak_date: Some("2026-01-28".to_string()),
        ..Default::default()
    };
    let today = "2026-01-29".to_string();
    assert!(needs_streak_rescan(&data, SessionStatus::Complete, &today));
    let persist = update_streak_on_completion(
        &mut data,
        SessionStatus::Complete,
        &today,
        &vec![true, true, true],
    );
    assert!(persist);
    assert_eq!(data.current_streak, 3);
    assert_eq!(data.longest_streak, 3);
    assert_eq!(data.total_sessions, 5);
    assert_eq!(data.last_streak_date, Some("2026-01-29".to_string()));
}

#[test]
fn test_recalculate_on_startup_reports_change() {
    let mut data = AchievementsData {
        current_streak: 5,
        longest_streak: 5,
        ..Default::default()
    };
    let changed = recalculate_streak_on_startup(&mut data, &vec![false, false]);
    assert!(changed);
    assert_eq!(data.current_streak, 0);
    assert_eq!(data.longest_streak, 5);

    let changed_again = recalculate_streak_on_startup(&mut data, &vec![false, false]);
    assert!(!changed_again);
}
