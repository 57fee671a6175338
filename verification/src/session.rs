//! Session records — a finished focus or break interval — and the
//! summary derived from a day's list of them.

use vstd::prelude::*;

use crate::text::{spec_dec, spec_pad2, push_dec, push_pad2};
use crate::time::LocalDateTime;

verus! {

/// Whether a session ran to its full configured duration or ended
/// early.
#[derive(Debug, Clone, Copy, PartialEq, Eq, Structural)]
pub enum SessionStatus {
    Complete,
    Interrupted,
}

impl SessionStatus {
    /// The status word used in the stored text.
    pub open spec fn spec_word(self) -> Seq<char> {
        if self == SessionStatus::Complete {
            seq!['C', 'o', 'm', 'p', 'l', 'e', 't', 'e']
        } else {
            seq!['I', 'n', 't', 'e', 'r', 'r', 'u', 'p', 't', 'e', 'd']
        }
    }

    /// The one-character glyph used in the stored text: a check mark
    /// for a complete session, a circle for an interrupted one.
    pub open spec fn spec_marker(self) -> Seq<char> {
        if self == SessionStatus::Complete {
            seq!['\u{2713}']
        } else {
            seq!['\u{25cb}']
        }
    }

    /// The status word used in the stored text.
    pub fn as_str(&self) -> (r: &'static str)
        ensures
            r@ == self.spec_word(),
    {
        proof {
            reveal_strlit("Complete");
            reveal_strlit("Interrupted");
            assert("Complete"@ =~= SessionStatus::Complete.spec_word());
            assert("Interrupted"@ =~= SessionStatus::Interrupted.spec_word());
        }
        match self {
            SessionStatus::Complete => "Complete",
            SessionStatus::Interrupted => "Interrupted",
        }
    }

    /// The one-character glyph used in the stored text.
    pub fn marker(&self) -> (r: &'static str)
        ensures
            r@ == self.spec_marker(),
    {
        proof {
            reveal_strlit("\u{2713}");
            reveal_strlit("\u{25cb}");
            assert("\u{2713}"@ =~= SessionStatus::Complete.spec_marker());
            assert("\u{25cb}"@ =~= SessionStatus::Interrupted.spec_marker());
        }
        match self {
            SessionStatus::Complete => "\u{2713}",
            SessionStatus::Interrupted => "\u{25cb}",
        }
    }
}

/// Whether a session was a focus interval or a break.
#[derive(Debug, Clone, Copy, PartialEq, Eq, Structural)]
pub enum SessionType {
    Focus,
    Break,
}

impl SessionType {
    /// The lower-case name of the type, as it appears in events and in
    /// the recovery record.
    pub fn as_str(&self) -> (r: &'static str)
        ensures
            *self == SessionType::Focus ==> r@ == "focus"@,
            *self == SessionType::Break ==> r@ == "break"@,
    {
        match self {
            SessionType::Focus => "focus",
            SessionType::Break => "break",
        }
    }
}

/// The duration a pair of instants yields: their difference in seconds,
/// never negative, clamped to what a `u32` can hold.
pub open spec fn spec_duration_between(start: int, end: int) -> int {
    if end <= start {
        0
    } else if end - start > u32::MAX {
        u32::MAX as int
    } else {
        end - start
    }
}

/// One finished interval: when it ran, how long, with what outcome.
#[derive(Debug, Clone, Copy, PartialEq, Eq, Structural)]
pub struct Session {
    pub start_time: LocalDateTime,
    pub end_time: LocalDateTime,
    pub duration_seconds: u32,
    pub status: SessionStatus,
    pub session_type: SessionType,
}

impl Session {
    /// Both wall-clock readings are valid.
    pub open spec fn wf(self) -> bool {
        self.start_time.wf() && self.end_time.wf()
    }

    /// The whole minutes of the session, as the stored text renders
    /// them.
    pub open spec fn spec_minutes(self) -> int {
        self.duration_seconds as int / 60
    }

    /// Build a session over an interval; the duration is the seconds
    /// between the two instants, zero when they are out of order.
    pub fn new(
        start_time: LocalDateTime,
        end_time: LocalDateTime,
        status: SessionStatus,
        session_type: SessionType,
    ) -> (r: Session)
        ensures
            r.start_time == start_time,
            r.end_time == end_time,
            r.status == status,
            r.session_type == session_type,
            r.duration_seconds == spec_duration_between(
                start_time.instant as int,
                end_time.instant as int,
            ),
    {
        let diff: i128 = end_time.instant as i128 - start_time.instant as i128;
        let duration_seconds: u32 = if diff <= 0 {
            0
        } else if diff > u32::MAX as i128 {
            u32::MAX
        } else {
            diff as u32
        };
        Session { start_time, end_time, duration_seconds, status, session_type }
    }

    /// The bullet line the stored text uses for the session:
    /// `- HH:MM - HH:MM <glyph> <word> (<minutes>m)`.
    pub open spec fn spec_line(self) -> Seq<char> {
        seq!['-', ' '] + spec_pad2(self.start_time.spec_hour() as nat) + seq![':'] + spec_pad2(
            self.start_time.spec_minute() as nat,
        ) + seq![' ', '-', ' '] + spec_pad2(self.end_time.spec_hour() as nat) + seq![':']
            + spec_pad2(self.end_time.spec_minute() as nat) + seq![' ']
            + self.status.spec_marker() + seq![' '] + self.status.spec_word() + seq![' ', '(']
            + spec_dec(self.spec_minutes() as nat) + seq!['m', ')']
    }

    /// Render the session as its stored bullet line.
    pub fn to_markdown_line(&self) -> (r: String)
        requires
            self.wf(),
        ensures
            r@ == self.spec_line(),
    {
        let mut s = String::new();
        s.append("- ");
        push_pad2(&mut s, self.start_time.hour());
        s.append(":");
        push_pad2(&mut s, self.start_time.minute());
        s.append(" - ");
        push_pad2(&mut s, self.end_time.hour());
        s.append(":");
        push_pad2(&mut s, self.end_time.minute());
        s.append(" ");
        s.append(self.status.marker());
        s.append(" ");
        s.append(self.status.as_str());
        s.append(" (");
        push_dec(&mut s, self.duration_seconds / 60);
        s.append("m)");
        proof {
            reveal_strlit("- ");
            reveal_strlit(":");
            reveal_strlit(" - ");
            reveal_strlit(" ");
            reveal_strlit(" (");
            reveal_strlit("m)");
            assert(s@ =~= self.spec_line());
        }
        s
    }
}

/// The derived aggregate of a day's focus sessions.  Break sessions
/// never enter any field.
#[derive(Debug, Clone, Copy, PartialEq, Eq, Structural)]
pub struct DailySummary {
    pub complete_count: u32,
    pub complete_minutes: u32,
    pub partial_count: u32,
    pub partial_minutes: u32,
    pub total_focus_minutes: u32,
}

/// How many focus sessions of a list are complete.
pub open spec fn spec_complete_count(s: Seq<Session>) -> int
    decreases s.len(),
{
    if s.len() == 0 {
        0
    } else {
        spec_complete_count(s.drop_last()) + if s.last().session_type == SessionType::Focus
            && s.last().status == SessionStatus::Complete {
            1int
        } else {
            0int
        }
    }
}

/// The whole minutes of the complete focus sessions of a list.
pub open spec fn spec_complete_minutes(s: Seq<Session>) -> int
    decreases s.len(),
{
    if s.len() == 0 {
        0
    } else {
        spec_complete_minutes(s.drop_last()) + if s.last().session_type == SessionType::Focus
            && s.last().status == SessionStatus::Complete {
            s.last().spec_minutes()
        } else {
            0int
        }
    }
}

/// How many focus sessions of a list are interrupted.
pub open spec fn spec_partial_count(s: Seq<Session>) -> int
    decreases s.len(),
{
    if s.len() == 0 {
        0
    } else {
        spec_partial_count(s.drop_last()) + if s.last().session_type == SessionType::Focus
            && s.last().status == SessionStatus::Interrupted {
            1int
        } else {
            0int
        }
    }
}

/// The whole minutes of the interrupted focus sessions of a list.
pub open spec fn spec_partial_minutes(s: Seq<Session>) -> int
    decreases s.len(),
{
    if s.len() == 0 {
        0
    } else {
        spec_partial_minutes(s.drop_last()) + if s.last().session_type == SessionType::Focus
            && s.last().status == SessionStatus::Interrupted {
            s.last().spec_minutes()
        } else {
            0int
        }
    }
}

/// Whether a summary is the one a session list derives.
pub open spec fn spec_summary_of(sessions: Seq<Session>, summary: DailySummary) -> bool {
    &&& summary.complete_count == spec_complete_count(sessions)
    &&& summary.complete_minutes == spec_complete_minutes(sessions)
    &&& summary.partial_count == spec_partial_count(sessions)
    &&& summary.partial_minutes == spec_partial_minutes(sessions)
    &&& summary.total_focus_minutes == spec_complete_minutes(sessions) + spec_partial_minutes(
        sessions,
    )
}

impl DailySummary {
    /// The all-zero summary of an empty day.
    pub fn zero() -> (r: DailySummary)
        ensures
            spec_summary_of(Seq::<Session>::empty(), r),
            r == (DailySummary {
                complete_count: 0u32,
                complete_minutes: 0u32,
                partial_count: 0u32,
                partial_minutes: 0u32,
                total_focus_minutes: 0u32,
            }),
    {
        DailySummary {
            complete_count: 0,
            complete_minutes: 0,
            partial_count: 0,
            partial_minutes: 0,
            total_focus_minutes: 0,
        }
    }

    /// Compute the summary of a session list afresh.  Only focus
    /// sessions count; the total is always the complete plus the
    /// partial minutes.
    pub fn from_sessions(sessions: &[Session]) -> (r: DailySummary)
        requires
            spec_complete_count(sessions@) <= u32::MAX,
            spec_partial_count(sessions@) <= u32::MAX,
            spec_complete_minutes(sessions@) + spec_partial_minutes(sessions@) <= u32::MAX,
        ensures
            spec_summary_of(sessions@, r),
    {
        let ghost whole = sessions@;
        let mut complete_count: u32 = 0;
        let mut complete_minutes: u32 = 0;
        let mut partial_count: u32 = 0;
        let mut partial_minutes: u32 = 0;
        let n = sessions.len();
        let mut i: usize = 0;
        while i < n
            invariant
                n == whole.len(),
                i <= n,
                sessions@ == whole,
                spec_complete_count(whole) <= u32::MAX,
                spec_partial_count(whole) <= u32::MAX,
                spec_complete_minutes(whole) + spec_partial_minutes(whole) <= u32::MAX,
                complete_count == spec_complete_count(whole.take(i as int)),
                complete_minutes == spec_complete_minutes(whole.take(i as int)),
                partial_count == spec_partial_count(whole.take(i as int)),
                partial_minutes == spec_partial_minutes(whole.take(i as int)),
            decreases n - i,
        {
            proof {
                assert(whole.take(i + 1).drop_last() =~= whole.take(i as int));
                assert(whole.take(i + 1).last() == whole[i as int]);
                lemma_summary_prefix_le(whole, i + 1);
            }
            let s = &sessions[i];
            if matches!(s.session_type, SessionType::Focus) {
                let minutes = s.duration_seconds / 60;
                match s.status {
                    SessionStatus::Complete => {
                        complete_count = complete_count + 1;
                        complete_minutes = complete_minutes + minutes;
                    },
                    SessionStatus::Interrupted => {
                        partial_count = partial_count + 1;
                        partial_minutes = partial_minutes + minutes;
                    },
                }
            }
            i = i + 1;
        }
        proof {
            assert(whole.take(n as int) =~= whole);
        }
        DailySummary {
            complete_count,
            complete_minutes,
            partial_count,
            partial_minutes,
            total_focus_minutes: complete_minutes + partial_minutes,
        }
    }
}

impl Default for DailySummary {
    /// The all-zero summary.
    fn default() -> (r: Self)
        ensures
            spec_summary_of(Seq::<Session>::empty(), r),
    {
        DailySummary::zero()
    }
}

/// Every summary component of a prefix is bounded by the component of
/// the whole list, and none is negative.
pub proof fn lemma_summary_prefix_le(s: Seq<Session>, i: int)
    requires
        0 <= i <= s.len(),
    ensures
        0 <= spec_complete_count(s.take(i)) <= spec_complete_count(s),
        0 <= spec_complete_minutes(s.take(i)) <= spec_complete_minutes(s),
        0 <= spec_partial_count(s.take(i)) <= spec_partial_count(s),
        0 <= spec_partial_minutes(s.take(i)) <= spec_partial_minutes(s),
    decreases s.len() - i,
{
    if i == s.len() {
        assert(s.take(i) =~= s);
        lemma_summary_nonneg(s);
    } else {
        lemma_summary_prefix_le(s, i + 1);
        assert(s.take(i + 1).drop_last() =~= s.take(i));
        lemma_summary_nonneg(s.take(i));
    }
}

/// No summary component is negative.
pub proof fn lemma_summary_nonneg(s: Seq<Session>)
    ensures
        spec_complete_count(s) >= 0,
        spec_complete_minutes(s) >= 0,
        spec_partial_count(s) >= 0,
        spec_partial_minutes(s) >= 0,
    decreases s.len(),
{
    if s.len() > 0 {
        lemma_summary_nonneg(s.drop_last());
    }
}

/// Appending a break session changes no component of the summary: break
/// sessions never alter any `DailySummary` field.
pub proof fn lemma_break_session_does_not_count(s: Seq<Session>, b: Session)
    requires
        b.session_type == SessionType::Break,
    ensures
        spec_complete_count(s.push(b)) == spec_complete_count(s),
        spec_complete_minutes(s.push(b)) == spec_complete_minutes(s),
        spec_partial_count(s.push(b)) == spec_partial_count(s),
        spec_partial_minutes(s.push(b)) == spec_partial_minutes(s),
{
    assert(s.push(b).drop_last() =~= s);
    assert(s.push(b).last() == b);
}

} // verus!
