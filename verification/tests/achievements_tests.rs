use focus_timer::achievements::{
    check_achievements, check_and_unlock_achievements, get_achievements_file_path,
    get_achievements_with_status, get_all_achievements, get_streak_data,
    get_total_session_count, is_already_unlocked, is_condition_met,
    process_unlocked_achievements, Achievement, AchievementRequirement, AchievementTier,
    AchievementsData, StreakDataResponse, UnlockedAchievement,
};

#[test]
fn test_default_achievements() {
    let achievements = AchievementsData::default();

    assert!(achievements.unlocked.is_empty());
    assert!(achievements.unlocked_achievements.is_empty());
    assert_eq!(achievements.current_streak, 0);
    assert_eq!(achievements.longest_streak, 0);
    assert_eq!(achievements.total_sessions, 0);
    assert!(achievements.last_streak_date.is_none());
}

#[test]
fn test_streak_data_response_from_achievements() {
    let achievements = AchievementsData {
        unlocked: vec![],
        unlocked_achievements: vec![],
        current_streak: 7,
        longest_streak: 14,
        total_sessions: 42,
        last_streak_date: Some("2026-01-29".to_string()),
    };

    let response = StreakDataResponse::from(&achievements);

    assert_eq!(response.current_streak, 7);
    assert_eq!(response.longest_streak, 14);
    assert_eq!(response.last_streak_date, Some("2026-01-29".to_string()));
}

#[test]
fn test_longest_streak_preserved_when_current_resets() {
    let achievements = AchievementsData {
        current_streak: 3,
        longest_streak: 10,
        total_sessions: 50,
        ..Default::default()
    };

    assert!(achievements.longest_streak >= achievements.current_streak);
    assert_eq!(achievements.longest_streak, 10);
}

#[test]
fn test_streak_data_includes_all_fields() {
    let achievements = AchievementsData {
        unlocked: vec!["test".to_string()],
        unlocked_achievements: vec![],
        current_streak: 7,
        longest_streak: 14,
        total_sessions: 100,
        last_streak_date: Some("2026-01-29".to_string()),
    };

    let response = StreakDataResponse::from(&achievements);

    assert_eq!(response.current_streak, achievements.current_streak);
    assert_eq!(response.longest_streak, achievements.longest_streak);
    assert_eq!(response.last_streak_date, achievements.last_streak_date);
}

#[test]
fn test_check_achievements_first_session_unlocks() {
    let unlocked: Vec<UnlockedAchievement> = vec![];
    let newly_unlocked = check_achievements(0, 1, &unlocked);

    assert_eq!(newly_unlocked.len(), 1);
    assert_eq!(newly_unlocked[0].id, "first_session");
}

#[test]
fn test_check_achievements_already_unlocked_not_returned() {
    let unlocked = vec![UnlockedAchievement {
        id: "first_session".to_string(),
        unlocked_at: "2026-01-29T10:00:00Z".to_string(),
    }];
    let newly_unlocked = check_achievements(0, 1, &unlocked);

    assert!(newly_unlocked.is_empty());
}

#[test]
fn test_check_achievements_streak_based() {
    let unlocked: Vec<UnlockedAchievement> = vec![];
    let newly_unlocked = check_achievements(7, 10, &unlocked);

    let has_week_warrior = newly_unlocked.iter().any(|a| a.id == "streak_7");
    assert!(has_week_warrior);
}

#[test]
fn test_check_achievements_session_based() {
    let unlocked: Vec<UnlockedAchievement> = vec![];
    let newly_unlocked = check_achievements(0, 50, &unlocked);

    let has_half_century = newly_unlocked.iter().any(|a| a.id == "sessions_50");
    assert!(has_half_century);
}

#[test]
fn test_check_achievements_multiple_unlocks_simultaneously() {
    let unlocked: Vec<UnlockedAchievement> = vec![];
    let newly_unlocked = check_achievements(7, 50, &unlocked);

    let ids: Vec<&str> = newly_unlocked.iter().map(|a| a.id.as_str()).collect();

    assert!(ids.contains(&"first_session"));
    assert!(ids.contains(&"sessions_10"));
    assert!(ids.contains(&"sessions_50"));
    assert!(ids.contains(&"streak_7"));
}

#[test]
fn test_check_achievements_condition_not_met() {
    let unlocked: Vec<UnlockedAchievement> = vec![];
    let newly_unlocked = check_achievements(5, 5, &unlocked);

    let has_week_warrior = newly_unlocked.iter().any(|a| a.id == "streak_7");
    assert!(!has_week_warrior);
}

#[test]
fn test_process_unlocked_achievements_adds_timestamp() {
    let mut achievements = AchievementsData::default();
    let newly_unlocked = vec![Achievement {
        id: "first_session".to_string(),
        title: "First Focus".to_string(),
        description: "Complete your first session".to_string(),
        icon: "Flame".to_string(),
        tier: AchievementTier::Bronze,
        requirement: AchievementRequirement::Sessions(1),
    }];

    let records = process_unlocked_achievements(&mut achievements, &newly_unlocked);

    assert_eq!(records.len(), 1);
    assert_eq!(records[0].id, "first_session");
    assert!(!records[0].unlocked_at.is_empty());
    assert!(achievements.unlocked.contains(&"first_session".to_string()));
    assert_eq!(achievements.unlocked_achievements.len(), 1);
}

#[test]
fn test_is_already_unlocked() {
    let unlocked = vec![UnlockedAchievement {
        id: "first_session".to_string(),
        unlocked_at: "2026-01-29T10:00:00Z".to_string(),
    }];

    assert!(is_already_unlocked("first_session", &unlocked));
    assert!(!is_already_unlocked("streak_7", &unlocked));
}

#[test]
fn test_is_condition_met_streak() {
    let req = AchievementRequirement::Streak(7);

    assert!(is_condition_met(&req, 7, 0));
    assert!(is_condition_met(&req, 10, 0));
    assert!(!is_condition_met(&req, 6, 100));
}

#[test]
fn test_is_condition_met_sessions() {
    let req = AchievementRequirement::Sessions(50);

    assert!(is_condition_met(&req, 0, 50));
    assert!(is_condition_met(&req, 0, 100));
    assert!(!is_condition_met(&req, 100, 49));
}

#[test]
fn test_get_all_achievements_returns_expected() {
    let achievements = get_all_achievements();

    assert_eq!(achievements.len(), 8);

    let ids: Vec<&str> = achievements.iter().map(|a| a.id.as_str()).collect();
    assert!(ids.contains(&"first_session"));
    assert!(ids.contains(&"streak_7"));
    assert!(ids.contains(&"streak_14"));
    assert!(ids.contains(&"streak_30"));
    assert!(ids.contains(&"sessions_10"));
    assert!(ids.contains(&"sessions_50"));
    assert!(ids.contains(&"sessions_100"));
    assert!(ids.contains(&"sessions_500"));
}

#[test]
fn test_get_achievements_with_status_marks_unlocked() {
    let data = AchievementsData {
        unlocked: vec!["streak_7".to_string()],
        unlocked_achievements: vec![UnlockedAchievement {
            id: "streak_7".to_string(),
            unlocked_at: "2026-01-29T10:00:00Z".to_string(),
        }],
        ..Default::default()
    };

    let with_status = get_achievements_with_status(&data);
    assert_eq!(with_status.len(), 8);
    for a in &with_status {
        if a.id == "streak_7" {
            assert!(a.unlocked);
            assert_eq!(a.unlocked_at, Some("2026-01-29T10:00:00Z".to_string()));
        } else {
            assert!(!a.unlocked);
            assert!(a.unlocked_at.is_none());
        }
    }
}

#[test]
fn test_check_and_unlock_achievements_unlocks_first_session() {
    let mut data = AchievementsData {
        total_sessions: 1,
        ..Default::default()
    };

    let newly = check_and_unlock_achievements(&mut data);
    assert_eq!(newly.len(), 1);
    assert_eq!(newly[0].0.id, "first_session");
    assert!(!newly[0].1.is_empty());
    assert_eq!(data.unlocked_achievements.len(), 1);

    let again = check_and_unlock_achievements(&mut data);
    assert!(again.is_empty());
}

#[test]
fn test_get_streak_data_and_total_sessions() {
    let data = AchievementsData {
        current_streak: 2,
        longest_streak: 9,
        total_sessions: 33,
        last_streak_date: Some("2026-02-01".to_string()),
        ..Default::default()
    };
    let streak = get_streak_data(&data);
    assert_eq!(streak.current_streak, 2);
    assert_eq!(streak.longest_streak, 9);
    assert_eq!(streak.last_streak_date, Some("2026-02-01".to_string()));
    assert_eq!(get_total_session_count(&data), 33);
}

#[test]
fn test_get_achievements_file_path_joins_directory() {
    assert_eq!(
        get_achievements_file_path("/tmp/data"),
        "/tmp/data/achievements.json"
    );
}
