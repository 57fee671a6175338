use focus_timer::scheduler::{
    pause_timer, resume_timer, scheduler_tick, start_timer, stop_timer,
};
use focus_timer::timer::{TimerState, TimerStatus};
use focus_timer::{BREAK_DURATION_SECONDS, FOCUS_DURATION_SECONDS};

#[test]
fn test_default_state_is_idle() {
    let state = TimerState::default();
    assert_eq!(state.status, TimerStatus::Idle);
    assert_eq!(state.remaining_seconds, 0);
    assert!(state.session_start_time.is_none());
}

#[test]
fn test_start_focus_sets_correct_state() {
    let mut state = TimerState::default();
    state.start_focus();

    assert_eq!(state.status, TimerStatus::Focus);
    assert_eq!(state.remaining_seconds, FOCUS_DURATION_SECONDS);
    assert!(state.session_start_time.is_some());
}

#[test]
fn test_start_break_sets_correct_state() {
    let mut state = TimerState::default();
    state.start_break();

    assert_eq!(state.status, TimerStatus::Break);
    assert_eq!(state.remaining_seconds, BREAK_DURATION_SECONDS);
    assert!(state.session_start_time.is_some());
}

#[test]
fn test_pause_from_focus() {
    let mut state = TimerState::default();
    state.start_focus();

    assert!(state.pause());
    assert_eq!(state.status, TimerStatus::Paused);
    assert_eq!(state.paused_status, Some(TimerStatus::Focus));
}

#[test]
fn test_pause_from_idle_fails() {
    let mut state = TimerState::default();
    assert!(!state.pause());
    assert_eq!(state.status, TimerStatus::Idle);
}

#[test]
fn test_resume_after_pause() {
    let mut state = TimerState::default();
    state.start_focus();
    state.remaining_seconds = 1000;
    state.pause();

    assert!(state.resume());
    assert_eq!(state.status, TimerStatus::Focus);
    assert_eq!(state.remaining_seconds, 1000);
}

#[test]
fn test_resume_without_pause_fails() {
    let mut state = TimerState::default();
    state.start_focus();

    assert!(!state.resume());
    assert_eq!(state.status, TimerStatus::Focus);
}

#[test]
fn test_stop_resets_state() {
    let mut state = TimerState::default();
    state.start_focus();
    state.remaining_seconds = 500;

    state.stop();

    assert_eq!(state.status, TimerStatus::Idle);
    assert_eq!(state.remaining_seconds, 0);
    assert!(state.session_start_time.is_none());
}

#[test]
fn test_tick_decrements_seconds() {
    let mut state = TimerState::default();
    state.start_focus();

    assert!(state.tick());
    assert_eq!(state.remaining_seconds, FOCUS_DURATION_SECONDS - 1);
}

#[test]
fn test_tick_does_nothing_when_paused() {
    let mut state = TimerState::default();
    state.start_focus();
    state.remaining_seconds = 100;
    state.pause();

    assert!(!state.tick());
    assert_eq!(state.remaining_seconds, 100);
}

#[test]
fn test_is_complete() {
    let mut state = TimerState::default();
    state.start_focus();
    state.remaining_seconds = 0;

    assert!(state.is_complete());
}

#[test]
fn test_session_duration() {
    let mut state = TimerState::default();
    state.start_focus();
    state.remaining_seconds = 1200;

    assert_eq!(state.session_duration(), 300);
}

#[test]
fn test_focus_counts_down_to_zero_and_completes_once() {
    let mut state = TimerState::default();
    state.start_focus();
    state.remaining_seconds = 3;

    let mut completions = 0;
    let mut last_remaining = state.remaining_seconds;
    for _ in 0..5 {
        let advanced = state.tick();
        if advanced {
            assert_eq!(state.remaining_seconds, last_remaining - 1);
            last_remaining = state.remaining_seconds;
        } else {
            assert_eq!(state.remaining_seconds, last_remaining);
        }
        if state.is_complete() && completions == 0 {
            completions = 1;
            assert_eq!(state.remaining_seconds, 0);
        }
    }
    assert_eq!(completions, 1);
    assert_eq!(state.remaining_seconds, 0);
}

#[test]
fn test_start_timer_rejected_when_running() {
    let mut state = TimerState::default();
    assert!(start_timer(&mut state).is_ok());
    let err = start_timer(&mut state).unwrap_err();
    assert_eq!(
        err.message(),
        "Invalid timer state transition: cannot start when status is focus"
    );
    assert_eq!(state.status, TimerStatus::Focus);
}

#[test]
fn test_pause_resume_commands() {
    let mut state = TimerState::default();
    assert!(pause_timer(&mut state).is_err());
    start_timer(&mut state).unwrap();
    let snap = pause_timer(&mut state).unwrap();
    assert_eq!(snap.status, TimerStatus::Paused);
    let snap = resume_timer(&mut state).unwrap();
    assert_eq!(snap.status, TimerStatus::Focus);
    assert!(resume_timer(&mut state).is_err());
}

#[test]
fn test_stop_timer_reports_interrupted_focus() {
    let mut state = TimerState::default();
    state.start_focus();
    let start = state.session_start_time;
    let outcome = stop_timer(&mut state);
    assert_eq!(state.status, TimerStatus::Idle);
    assert_eq!(outcome.state.status, TimerStatus::Idle);
    let (saved_start, saved_type) = outcome.interrupted.unwrap();
    assert_eq!(Some(saved_start), start);
    assert_eq!(saved_type, focus_timer::session::SessionType::Focus);
}

#[test]
fn test_stop_timer_idle_saves_nothing() {
    let mut state = TimerState::default();
    let outcome = stop_timer(&mut state);
    assert!(outcome.interrupted.is_none());
}

#[test]
fn test_scheduler_tick_rolls_focus_into_break() {
    let mut state = TimerState::default();
    state.start_focus();
    state.remaining_seconds = 1;

    let outcome = scheduler_tick(&mut state, 0);
    assert!(outcome.ticked);
    assert_eq!(outcome.new_tick_count, 1);
    let tick_event = outcome.tick_event.unwrap();
    assert_eq!(tick_event.remaining_seconds, 0);
    assert_eq!(tick_event.status, "focus");
    let completion = outcome.completion.unwrap();
    assert_eq!(completion.session_type, focus_timer::session::SessionType::Focus);
    assert_eq!(completion.nominal_duration, FOCUS_DURATION_SECONDS);
    assert!(completion.delete_recovery);
    assert!(!completion.stop_scheduler);
    assert_eq!(completion.final_tick_event.status, "break");
    assert_eq!(completion.final_tick_event.remaining_seconds, BREAK_DURATION_SECONDS);
    assert_eq!(state.status, TimerStatus::Break);
}

#[test]
fn test_scheduler_tick_break_end_stops() {
    let mut state = TimerState::default();
    state.start_break();
    state.remaining_seconds = 1;

    let outcome = scheduler_tick(&mut state, 5);
    let completion = outcome.completion.unwrap();
    assert_eq!(completion.session_type, focus_timer::session::SessionType::Break);
    assert!(completion.stop_scheduler);
    assert_eq!(completion.final_tick_event.status, "idle");
    assert_eq!(state.status, TimerStatus::Idle);
}

#[test]
fn test_scheduler_tick_paused_does_nothing() {
    let mut state = TimerState::default();
    state.start_focus();
    state.pause();
    let remaining = state.remaining_seconds;

    let outcome = scheduler_tick(&mut state, 7);
    assert!(!outcome.ticked);
    assert_eq!(outcome.new_tick_count, 7);
    assert!(outcome.tick_event.is_none());
    assert!(outcome.completion.is_none());
    assert_eq!(state.remaining_seconds, remaining);
    assert_eq!(state.status, TimerStatus::Paused);
}

#[test]
fn test_scheduler_tick_refreshes_recovery_every_thirty_ticks() {
    let mut state = TimerState::default();
    state.start_focus();

    let outcome = scheduler_tick(&mut state, 29);
    assert!(outcome.refresh_recovery);
    let outcome = scheduler_tick(&mut state, 30);
    assert!(!outcome.refresh_recovery);
}
