//! The timer state machine: idle, focus, break and paused, with the
//! remaining-seconds bookkeeping that drives a session.

use vstd::prelude::*;

use crate::clock::now_utc_seconds;
use crate::{BREAK_DURATION_SECONDS, FOCUS_DURATION_SECONDS};

verus! {

/// The four states a timer can be in.
#[derive(Debug, Clone, Copy, PartialEq, Eq, Structural)]
pub enum TimerStatus {
    Idle,
    Focus,
    Break,
    Paused,
}

/// The lower-case name of a status, as it appears in events and error
/// messages.
pub open spec fn spec_status_name(s: TimerStatus) -> Seq<char> {
    match s {
        TimerStatus::Idle => "idle"@,
        TimerStatus::Focus => "focus"@,
        TimerStatus::Break => "break"@,
        TimerStatus::Paused => "paused"@,
    }
}

impl TimerStatus {
    /// The lower-case name of the status, as it appears in events and
    /// error messages.
    pub fn as_str(&self) -> (r: &'static str)
        ensures
            r@ == spec_status_name(*self),
    {
        match self {
            TimerStatus::Idle => "idle",
            TimerStatus::Focus => "focus",
            TimerStatus::Break => "break",
            TimerStatus::Paused => "paused",
        }
    }
}

/// The in-memory timer.  `paused_status` remembers which of focus or
/// break was active when the timer was paused; it is set exactly while
/// `status` is `Paused`.
#[derive(Debug, Clone, Copy)]
pub struct TimerState {
    pub status: TimerStatus,
    pub remaining_seconds: u32,
    /// Unix timestamp (UTC seconds) of the moment the running session
    /// started, while one is running.
    pub session_start_time: Option<i64>,
    pub paused_status: Option<TimerStatus>,
}

impl TimerState {
    /// The invariant the transition operations preserve: the remembered
    /// pre-pause status exists exactly in the paused state, and is
    /// itself always focus or break.
    pub open spec fn wf(self) -> bool {
        &&& (self.paused_status is Some <==> self.status == TimerStatus::Paused)
        &&& (self.paused_status matches Some(p) ==> p == TimerStatus::Focus || p
            == TimerStatus::Break)
    }

    /// Whether a call to `tick` would advance the countdown.
    pub open spec fn spec_ticks(self) -> bool {
        self.remaining_seconds > 0 && (self.status == TimerStatus::Focus || self.status
            == TimerStatus::Break)
    }

    /// The state after one call to `tick`.
    pub open spec fn spec_tick(self) -> TimerState {
        if self.spec_ticks() {
            TimerState { remaining_seconds: (self.remaining_seconds - 1) as u32, ..self }
        } else {
            self
        }
    }

    /// The state after `n` calls to `tick`.
    pub open spec fn spec_ticked(self, n: nat) -> TimerState
        decreases n,
    {
        if n == 0 {
            self
        } else {
            self.spec_ticked((n - 1) as nat).spec_tick()
        }
    }

    /// Whether the running interval has counted down to its end.
    pub open spec fn spec_is_complete(self) -> bool {
        self.remaining_seconds == 0 && (self.status == TimerStatus::Focus || self.status
            == TimerStatus::Break)
    }

    /// Forcibly enter the focus state with the full focus duration,
    /// recording the wall-clock start of the session.
    pub fn start_focus(&mut self)
        ensures
            final(self).status == TimerStatus::Focus,
            final(self).remaining_seconds == FOCUS_DURATION_SECONDS,
            final(self).session_start_time is Some,
            final(self).paused_status is None,
            final(self).wf(),
    {
        self.status = TimerStatus::Focus;
        self.remaining_seconds = FOCUS_DURATION_SECONDS;
        self.session_start_time = Some(now_utc_seconds());
        self.paused_status = None;
    }

    /// Forcibly enter the break state with the full break duration,
    /// recording the wall-clock start of the session.
    pub fn start_break(&mut self)
        ensures
            final(self).status == TimerStatus::Break,
            final(self).remaining_seconds == BREAK_DURATION_SECONDS,
            final(self).session_start_time is Some,
            final(self).paused_status is None,
            final(self).wf(),
    {
        self.status = TimerStatus::Break;
        self.remaining_seconds = BREAK_DURATION_SECONDS;
        self.session_start_time = Some(now_utc_seconds());
        self.paused_status = None;
    }

    /// Pause a running focus or break.  Fails, leaving the state
    /// untouched, from idle or when already paused.
    pub fn pause(&mut self) -> (r: bool)
        ensures
            r == (old(self).status == TimerStatus::Focus || old(self).status
                == TimerStatus::Break),
            r ==> *final(self) == (TimerState {
                status: TimerStatus::Paused,
                paused_status: Some(old(self).status),
                ..*old(self)
            }),
            !r ==> *final(self) == *old(self),
    {
        match self.status {
            TimerStatus::Focus | TimerStatus::Break => {
                self.paused_status = Some(self.status);
                self.status = TimerStatus::Paused;
                true
            },
            _ => false,
        }
    }

    /// Resume from a pause, restoring the remembered status.  Fails,
    /// leaving the state untouched, unless paused with a remembered
    /// status.
    pub fn resume(&mut self) -> (r: bool)
        ensures
            r == (old(self).status == TimerStatus::Paused && old(self).paused_status is Some),
            r ==> *final(self) == (TimerState {
                status: old(self).paused_status->Some_0,
                paused_status: None,
                ..*old(self)
            }),
            !r ==> *final(self) == *old(self),
    {
        if self.status == TimerStatus::Paused {
            if let Some(previous) = self.paused_status {
                self.paused_status = None;
                self.status = previous;
                return true;
            }
        }
        false
    }

    /// Reset to idle unconditionally.
    pub fn stop(&mut self)
        ensures
            *final(self) == (TimerState {
                status: TimerStatus::Idle,
                remaining_seconds: 0u32,
                session_start_time: None,
                paused_status: None,
            }),
            final(self).wf(),
    {
        self.status = TimerStatus::Idle;
        self.remaining_seconds = 0;
        self.session_start_time = None;
        self.paused_status = None;
    }

    /// Count one second off a running focus or break.  Returns whether
    /// the countdown advanced; a paused, idle or already-finished timer
    /// is left untouched.
    pub fn tick(&mut self) -> (r: bool)
        ensures
            r == old(self).spec_ticks(),
            *final(self) == old(self).spec_tick(),
    {
        if self.remaining_seconds > 0 && (self.status == TimerStatus::Focus || self.status
            == TimerStatus::Break) {
            self.remaining_seconds = self.remaining_seconds - 1;
            true
        } else {
            false
        }
    }

    /// Whether the running interval has counted down to its end.  This
    /// also holds just before the scheduler transitions away from the
    /// finished state.
    pub fn is_complete(&self) -> (r: bool)
        ensures
            r == self.spec_is_complete(),
    {
        self.remaining_seconds == 0 && (self.status == TimerStatus::Focus || self.status
            == TimerStatus::Break)
    }

    /// Seconds elapsed of the configured duration of the running
    /// interval; zero when no interval is running.
    pub fn session_duration(&self) -> (r: u32)
        ensures
            self.status == TimerStatus::Focus ==> r == if self.remaining_seconds
                <= FOCUS_DURATION_SECONDS {
                (FOCUS_DURATION_SECONDS - self.remaining_seconds) as int
            } else {
                0int
            },
            self.status == TimerStatus::Break ==> r == if self.remaining_seconds
                <= BREAK_DURATION_SECONDS {
                (BREAK_DURATION_SECONDS - self.remaining_seconds) as int
            } else {
                0int
            },
            self.status == TimerStatus::Idle || self.status == TimerStatus::Paused ==> r == 0,
    {
        match self.status {
            TimerStatus::Focus => if self.remaining_seconds <= FOCUS_DURATION_SECONDS {
                FOCUS_DURATION_SECONDS - self.remaining_seconds
            } else {
                0
            },
            TimerStatus::Break => if self.remaining_seconds <= BREAK_DURATION_SECONDS {
                BREAK_DURATION_SECONDS - self.remaining_seconds
            } else {
                0
            },
            _ => 0,
        }
    }
}

impl Default for TimerState {
    /// A fresh timer: idle, with nothing remaining and no session.
    fn default() -> (r: Self)
        ensures
            r == (TimerState {
                status: TimerStatus::Idle,
                remaining_seconds: 0u32,
                session_start_time: None,
                paused_status: None,
            }),
            r.wf(),
    {
        TimerState {
            status: TimerStatus::Idle,
            remaining_seconds: 0,
            session_start_time: None,
            paused_status: None,
        }
    }
}

/// While the timer is in focus, successive ticks count the remaining
/// seconds down by exactly one each, monotonically to exactly zero, and
/// the interval registers as complete from precisely the tick that
/// reaches zero; ticks past that point change nothing.
pub proof fn lemma_focus_countdown(s: TimerState, n: nat)
    requires
        s.status == TimerStatus::Focus,
    ensures
        s.spec_ticked(n).status == TimerStatus::Focus,
        s.spec_ticked(n).remaining_seconds == if n <= s.remaining_seconds {
            s.remaining_seconds - n
        } else {
            0int
        },
        s.spec_ticked(n).spec_is_complete() <==> n >= s.remaining_seconds,
        s.spec_ticked(n).spec_ticks() <==> n < s.remaining_seconds,
        s.spec_ticked(n).session_start_time == s.session_start_time,
        s.spec_ticked(n).paused_status == s.paused_status,
    decreases n,
{
    if n > 0 {
        lemma_focus_countdown(s, (n - 1) as nat);
    }
}

/// A pause followed by a resume restores the exact prior status and
/// leaves the remaining seconds (and the rest of the state) unchanged.
pub proof fn lemma_pause_resume_restores(s: TimerState)
    requires
        s.wf(),
        s.status == TimerStatus::Focus || s.status == TimerStatus::Break,
    ensures
        spec_resume(spec_pause(s).0).0 == s,
        spec_pause(s).1,
        spec_resume(spec_pause(s).0).1,
{
}

/// Pausing from idle (or when already paused) fails and leaves the
/// state unchanged.
pub proof fn lemma_pause_fails_unchanged(s: TimerState)
    requires
        s.status == TimerStatus::Idle || s.status == TimerStatus::Paused,
    ensures
        spec_pause(s).0 == s,
        !spec_pause(s).1,
{
}

/// Resuming without a prior pause fails and leaves the state unchanged.
pub proof fn lemma_resume_fails_unchanged(s: TimerState)
    requires
        s.status != TimerStatus::Paused || s.paused_status is None,
    ensures
        spec_resume(s).0 == s,
        !spec_resume(s).1,
{
}

/// The state and success flag `pause` produces.
pub open spec fn spec_pause(s: TimerState) -> (TimerState, bool) {
    if s.status == TimerStatus::Focus || s.status == TimerStatus::Break {
        (TimerState { status: TimerStatus::Paused, paused_status: Some(s.status), ..s }, true)
    } else {
        (s, false)
    }
}

/// The state and success flag `resume` produces.
pub open spec fn spec_resume(s: TimerState) -> (TimerState, bool) {
    if s.status == TimerStatus::Paused && s.paused_status is Some {
        (TimerState { status: s.paused_status->Some_0, paused_status: None, ..s }, true)
    } else {
        (s, false)
    }
}

} // verus!
