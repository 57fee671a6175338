//! The event payloads the engine publishes to its consumers.

use vstd::prelude::*;

use crate::session::{DailySummary, SessionStatus, SessionType};

verus! {

/// Published on every effective tick.
#[derive(Debug, Clone)]
pub struct TimerTickPayload {
    pub remaining_seconds: u32,
    pub status: String,
}

/// Published when an interval runs to its full duration.
#[derive(Debug, Clone)]
pub struct SessionCompletePayload {
    pub session_type: String,
    pub duration_seconds: u32,
    pub completed_at: String,
}

/// Published after a session was persisted, with the updated summary.
#[derive(Debug, Clone)]
pub struct SessionSavedPayload {
    pub session_type: String,
    pub status: String,
    pub duration_seconds: u32,
    pub complete_count: u32,
    pub partial_count: u32,
    pub total_focus_minutes: u32,
}

/// Published when the streak changed.
#[derive(Debug, Clone)]
pub struct StreakUpdatedPayload {
    pub current_streak: u32,
    pub longest_streak: u32,
}

/// The payload announcing a persisted session, built from the saved
/// session's facts and the day's fresh summary.
pub fn make_session_saved_payload(
    session_type: SessionType,
    status: SessionStatus,
    duration_seconds: u32,
    summary: &DailySummary,
) -> (r: SessionSavedPayload)
    ensures
        session_type == SessionType::Focus ==> r.session_type@ == "focus"@,
        session_type == SessionType::Break ==> r.session_type@ == "break"@,
        r.status@ == status.spec_word(),
        r.duration_seconds == duration_seconds,
        r.complete_count == summary.complete_count,
        r.partial_count == summary.partial_count,
        r.total_focus_minutes == summary.total_focus_minutes,
{
    SessionSavedPayload {
        session_type: String::from_str(session_type.as_str()),
        status: String::from_str(status.as_str()),
        duration_seconds,
        complete_count: summary.complete_count,
        partial_count: summary.partial_count,
        total_focus_minutes: summary.total_focus_minutes,
    }
}

} // verus!
