//! Derived statistics over loaded session records: today's numbers,
//! the per-day history, and the weekly totals.

use vstd::prelude::*;

use crate::session::{DailySummary, Session, SessionStatus};
use crate::text::{push_pad2, spec_pad2};
use crate::time::{Date, LocalDateTime};

verus! {

use vstd::seq_lib::group_to_multiset_ensures;

/// The headline numbers for the quick glance.
#[derive(Debug, Clone)]
pub struct QuickStatsResponse {
    pub current_streak: u32,
    pub today_sessions: u32,
    pub today_focus_minutes: u32,
}

/// Today's counts for the stats panel.
#[derive(Debug, Clone)]
pub struct TodayStatsResponse {
    pub completed_count: u32,
    pub interrupted_count: u32,
    pub total_focus_minutes: u32,
}

impl TodayStatsResponse {
    /// The panel numbers a day summary yields.
    pub fn from(summary: DailySummary) -> (r: Self)
        ensures
            r.completed_count == summary.complete_count,
            r.interrupted_count == summary.partial_count,
            r.total_focus_minutes == summary.total_focus_minutes,
    {
        TodayStatsResponse {
            completed_count: summary.complete_count,
            interrupted_count: summary.partial_count,
            total_focus_minutes: summary.total_focus_minutes,
        }
    }
}

/// The quick-glance numbers a day summary yields.  The streak shown
/// here is a fixed zero; the live streak travels in its own responses.
pub fn get_quick_stats(summary: &DailySummary) -> (r: QuickStatsResponse)
    requires
        summary.complete_count + summary.partial_count <= u32::MAX,
    ensures
        r.current_streak == 0,
        r.today_sessions == summary.complete_count + summary.partial_count,
        r.today_focus_minutes == summary.total_focus_minutes,
{
    QuickStatsResponse {
        current_streak: 0,
        today_sessions: summary.complete_count + summary.partial_count,
        today_focus_minutes: summary.total_focus_minutes,
    }
}

/// The stats-panel numbers a day summary yields.
pub fn get_today_stats(summary: &DailySummary) -> (r: TodayStatsResponse)
    ensures
        r.completed_count == summary.complete_count,
        r.interrupted_count == summary.partial_count,
        r.total_focus_minutes == summary.total_focus_minutes,
{
    TodayStatsResponse::from(*summary)
}

/// One session, rendered for display.
#[derive(Debug, Clone)]
pub struct SessionSummary {
    pub start_time: String,
    pub end_time: String,
    pub duration_seconds: u32,
    pub status: String,
}

/// The display rendering of a wall-clock reading:
/// `YYYY-MM-DDTHH:MM:SS`.
pub open spec fn spec_datetime_display(t: LocalDateTime) -> Seq<char> {
    t.date.spec_iso() + seq!['T'] + spec_pad2(t.spec_hour() as nat) + seq![':'] + spec_pad2(
        t.spec_minute() as nat,
    ) + seq![':'] + spec_pad2((t.secs_of_day % 60) as nat)
}

/// Render a wall-clock reading for display.
pub fn format_datetime_display(t: &LocalDateTime) -> (r: String)
    requires
        t.wf(),
    ensures
        r@ == spec_datetime_display(*t),
{
    let mut s = String::new();
    crate::time::push_date_iso(&mut s, &t.date);
    s.append("T");
    push_pad2(&mut s, t.hour());
    s.append(":");
    push_pad2(&mut s, t.minute());
    s.append(":");
    push_pad2(&mut s, t.secs_of_day % 60);
    proof {
        reveal_strlit("T");
        reveal_strlit(":");
        assert(s@ =~= spec_datetime_display(*t));
    }
    s
}

impl SessionSummary {
    /// The display rendering of a session.
    pub fn from(session: &Session) -> (r: Self)
        requires
            session.wf(),
        ensures
            r.start_time@ == spec_datetime_display(session.start_time),
            r.end_time@ == spec_datetime_display(session.end_time),
            r.duration_seconds == session.duration_seconds,
            session.status == SessionStatus::Complete ==> r.status@ == "complete"@,
            session.status == SessionStatus::Interrupted ==> r.status@ == "interrupted"@,
    {
        SessionSummary {
            start_time: format_datetime_display(&session.start_time),
            end_time: format_datetime_display(&session.end_time),
            duration_seconds: session.duration_seconds,
            status: match session.status {
                SessionStatus::Complete => String::from_str("complete"),
                SessionStatus::Interrupted => String::from_str("interrupted"),
            },
        }
    }
}

/// One day of the history view.
#[derive(Debug, Clone)]
pub struct DayHistory {
    pub date: String,
    pub sessions: Vec<SessionSummary>,
    pub total_complete: u32,
    pub total_interrupted: u32,
    pub total_minutes: u32,
}

/// The history view over a span of days.
#[derive(Debug, Clone)]
pub struct SessionHistoryResponse {
    pub days: Vec<DayHistory>,
    pub has_more: bool,
    pub total_days: u32,
}

/// How many of a day's sessions, of either type, are complete.
pub open spec fn spec_day_complete(s: Seq<Session>) -> int
    decreases s.len(),
{
    if s.len() == 0 {
        0
    } else {
        spec_day_complete(s.drop_last()) + if s.last().status == SessionStatus::Complete {
            1int
        } else {
            0int
        }
    }
}

/// How many of a day's sessions, of either type, are interrupted.
pub open spec fn spec_day_interrupted(s: Seq<Session>) -> int
    decreases s.len(),
{
    if s.len() == 0 {
        0
    } else {
        spec_day_interrupted(s.drop_last()) + if s.last().status == SessionStatus::Interrupted {
            1int
        } else {
            0int
        }
    }
}

/// The whole minutes of all of a day's sessions.
pub open spec fn spec_day_minutes(s: Seq<Session>) -> int
    decreases s.len(),
{
    if s.len() == 0 {
        0
    } else {
        spec_day_minutes(s.drop_last()) + s.last().spec_minutes()
    }
}

/// No day total is negative, and counts never exceed the day's length.
proof fn lemma_day_totals_bounds(s: Seq<Session>)
    ensures
        0 <= spec_day_complete(s) <= s.len(),
        0 <= spec_day_interrupted(s) <= s.len(),
        0 <= spec_day_minutes(s),
    decreases s.len(),
{
    if s.len() > 0 {
        lemma_day_totals_bounds(s.drop_last());
    }
}

/// A day total grows along its prefixes.
proof fn lemma_day_minutes_prefix(s: Seq<Session>, i: int)
    requires
        0 <= i <= s.len(),
    ensures
        spec_day_minutes(s.take(i)) <= spec_day_minutes(s),
    decreases s.len() - i,
{
    if i == s.len() {
        assert(s.take(i) =~= s);
    } else {
        lemma_day_minutes_prefix(s, i + 1);
        assert(s.take(i + 1).drop_last() =~= s.take(i));
        assert(s.take(i + 1).last() == s[i]);
        lemma_day_totals_bounds(s.take(i));
    }
}

/// Sorted newest-first by session start.
pub open spec fn spec_sorted_desc(s: Seq<Session>) -> bool {
    forall|i: int, j: int|
        0 <= i < j < s.len() ==> s[i].start_time.instant >= s[j].start_time.instant
}

/// Sort sessions newest-first by their start instant, keeping exactly
/// the same sessions.
pub fn sort_sessions_by_start_desc(input: Vec<Session>) -> (r: Vec<Session>)
    ensures
        r@.len() == input@.len(),
        r@.to_multiset() == input@.to_multiset(),
        spec_sorted_desc(r@),
{
    broadcast use group_to_multiset_ensures, vstd::multiset::group_multiset_axioms;

    let mut rest = input;
    let mut out: Vec<Session> = Vec::new();
    let ghost whole = rest@;
    while rest.len() > 0
        invariant
            out@.to_multiset().add(rest@.to_multiset()) == whole.to_multiset(),
            out@.len() + rest@.len() == whole.len(),
            spec_sorted_desc(out@),
            forall|i: int, j: int|
                0 <= i < out@.len() && 0 <= j < rest@.len() ==> out@[i].start_time.instant
                    >= rest@[j].start_time.instant,
        decreases rest.len(),
    {
        let n = rest.len();
        let mut best: usize = 0;
        let mut k: usize = 1;
        while k < n
            invariant
                best < k <= n == rest@.len(),
                forall|j: int|
                    0 <= j < k ==> rest@[best as int].start_time.instant
                        >= rest@[j].start_time.instant,
            decreases n - k,
        {
            if rest[k].start_time.instant > rest[best].start_time.instant {
                best = k;
            }
            k = k + 1;
        }
        let ghost rest0 = rest@;
        let picked = rest.remove(best);
        let ghost out0 = out@;
        out.push(picked);
        proof {
            assert(out@ =~= out0.push(picked));
            assert(rest@ =~= rest0.remove(best as int));
            assert(picked == rest0[best as int]);
            vstd::seq_lib::to_multiset_build::<Session>(out0, picked);
            vstd::seq_lib::to_multiset_remove::<Session>(rest0, best as int);
            assert(out@.to_multiset() =~= out0.to_multiset().insert(picked));
            assert(rest@.to_multiset() =~= rest0.to_multiset().remove(picked));
            vstd::seq_lib::to_multiset_contains::<Session>(rest0, picked);
            assert(rest0.to_multiset().count(picked) > 0) by {
                assert(rest0[best as int] == picked);
                assert(rest0.contains(picked));
                vstd::seq_lib::to_multiset_contains::<Session>(rest0, picked);
            }
            assert(out@.to_multiset().add(rest@.to_multiset()) =~= whole.to_multiset());
            assert forall|i: int, j: int|
                0 <= i < out@.len() && 0 <= j < rest@.len() implies out@[i].start_time.instant
                >= rest@[j].start_time.instant by {
                if j < best {
                    assert(rest@[j] == rest0[j]);
                } else {
                    assert(rest@[j] == rest0[j + 1]);
                }
            }
        }
    }
    proof {
        assert(rest@.to_multiset() =~= Seq::<Session>::empty().to_multiset());
        assert(out@.to_multiset() =~= whole.to_multiset());
    }
    out
}


/// The positions of the days that have any sessions, in scan order.
pub open spec fn spec_nonempty_days(days: Seq<(Date, Vec<Session>)>, upto: int) -> Seq<int>
    decreases upto,
{
    if upto <= 0 {
        Seq::empty()
    } else {
        let prev = spec_nonempty_days(days, upto - 1);
        if days[upto - 1].1@.len() > 0 {
            prev.push(upto - 1)
        } else {
            prev
        }
    }
}

/// One day of the history view: totals over the day's sessions in
/// stored order, and the sessions rendered newest-first.
pub fn day_history_of(date: &Date, sessions: &Vec<Session>) -> (r: DayHistory)
    requires
        date.wf(),
        forall|j: int| 0 <= j < sessions@.len() ==> (#[trigger] sessions@[j]).wf(),
        sessions@.len() <= u32::MAX,
        spec_day_minutes(sessions@) <= u32::MAX,
    ensures
        r.date@ == date.spec_iso(),
        r.total_complete == spec_day_complete(sessions@),
        r.total_interrupted == spec_day_interrupted(sessions@),
        r.total_minutes == spec_day_minutes(sessions@),
        r.sessions@.len() == sessions@.len(),
        exists|ss: Seq<Session>|
            #![auto]
            ss.to_multiset() == sessions@.to_multiset() && spec_sorted_desc(ss) && ss.len()
                == r.sessions@.len() && (forall|j: int|
                0 <= j < ss.len() ==> (#[trigger] r.sessions@[j]).start_time@
                    == spec_datetime_display(ss[j].start_time) && r.sessions@[j].end_time@
                    == spec_datetime_display(ss[j].end_time) && r.sessions@[j].duration_seconds
                    == ss[j].duration_seconds),
{
    broadcast use group_to_multiset_ensures, vstd::multiset::group_multiset_axioms;

    let ghost whole = sessions@;
    let n = sessions.len();
    let mut total_complete: u32 = 0;
    let mut total_interrupted: u32 = 0;
    let mut total_minutes: u32 = 0;
    let mut copy: Vec<Session> = Vec::new();
    let mut i: usize = 0;
    while i < n
        invariant
            i <= n == whole.len(),
            sessions@ == whole,
            n <= u32::MAX,
            spec_day_minutes(whole) <= u32::MAX,
            forall|j: int| 0 <= j < whole.len() ==> (#[trigger] whole[j]).wf(),
            total_complete == spec_day_complete(whole.take(i as int)),
            total_interrupted == spec_day_interrupted(whole.take(i as int)),
            total_minutes == spec_day_minutes(whole.take(i as int)),
            copy@ == whole.take(i as int),
        decreases n - i,
    {
        proof {
            assert(whole.take(i + 1).drop_last() =~= whole.take(i as int));
            assert(whole.take(i + 1).last() == whole[i as int]);
            lemma_day_totals_bounds(whole.take(i + 1));
            lemma_day_minutes_prefix(whole, i + 1);
            lemma_day_totals_bounds(whole.take(i as int));
        }
        let s = &sessions[i];
        match s.status {
            SessionStatus::Complete => {
                total_complete = total_complete + 1;
            },
            SessionStatus::Interrupted => {
                total_interrupted = total_interrupted + 1;
            },
        }
        total_minutes = total_minutes + s.duration_seconds / 60;
        copy.push(*s);
        proof {
            assert(copy@ =~= whole.take(i + 1));
        }
        i = i + 1;
    }
    proof {
        assert(whole.take(n as int) =~= whole);
    }
    let sorted = sort_sessions_by_start_desc(copy);
    let ghost sorted_seq = sorted@;
    proof {
        assert forall|j: int| 0 <= j < sorted@.len() implies (#[trigger] sorted@[j]).wf() by {
            let s = sorted@[j];
            assert(sorted@.contains(s));
            vstd::seq_lib::to_multiset_contains::<Session>(sorted@, s);
            vstd::seq_lib::to_multiset_contains::<Session>(whole, s);
            assert(whole.contains(s));
            let k = choose|k: int| 0 <= k < whole.len() && whole[k] == s;
        }
    }
    let m = sorted.len();
    let mut summaries: Vec<SessionSummary> = Vec::new();
    let mut j: usize = 0;
    while j < m
        invariant
            j <= m == sorted@.len(),
            sorted@ == sorted_seq,
            forall|k: int| 0 <= k < sorted@.len() ==> (#[trigger] sorted@[k]).wf(),
            summaries@.len() == j,
            forall|k: int|
                0 <= k < j ==> (#[trigger] summaries@[k]).start_time@ == spec_datetime_display(
                    sorted@[k].start_time,
                ) && summaries@[k].end_time@ == spec_datetime_display(sorted@[k].end_time)
                    && summaries@[k].duration_seconds == sorted@[k].duration_seconds,
        decreases m - j,
    {
        summaries.push(SessionSummary::from(&sorted[j]));
        j = j + 1;
    }
    DayHistory {
        date: crate::time::format_date(date),
        sessions: summaries,
        total_complete,
        total_interrupted,
        total_minutes,
    }
}

/// The history view over a span of loaded days: each day that has
/// sessions appears, in scan order, with its totals and its sessions
/// rendered newest-first.
pub fn get_session_history(days_sessions: &Vec<(Date, Vec<Session>)>) -> (r:
    SessionHistoryResponse)
    requires
        days_sessions@.len() <= u32::MAX,
        forall|k: int| 0 <= k < days_sessions@.len() ==> (#[trigger] days_sessions@[k]).0.wf(),
        forall|k: int, j: int|
            0 <= k < days_sessions@.len() && 0 <= j < days_sessions@[k].1@.len() ==> (
            #[trigger] days_sessions@[k].1@[j]).wf(),
        forall|k: int|
            0 <= k < days_sessions@.len() ==> (#[trigger] days_sessions@[k]).1@.len()
                <= u32::MAX && spec_day_minutes(days_sessions@[k].1@) <= u32::MAX,
    ensures
        ({
            let sel = spec_nonempty_days(days_sessions@, days_sessions@.len() as int);
            &&& r.has_more == false
            &&& r.total_days == sel.len()
            &&& r.days@.len() == sel.len()
            &&& forall|k: int|
                0 <= k < sel.len() ==> (#[trigger] r.days@[k]).date@ == days_sessions@[
                    sel[k]
                ].0.spec_iso() && r.days@[k].total_complete == spec_day_complete(
                    days_sessions@[sel[k]].1@,
                ) && r.days@[k].total_interrupted == spec_day_interrupted(
                    days_sessions@[sel[k]].1@,
                ) && r.days@[k].total_minutes == spec_day_minutes(days_sessions@[sel[k]].1@)
                    && r.days@[k].sessions@.len() == days_sessions@[sel[k]].1@.len()
        }),
{
    let ghost whole = days_sessions@;
    let n = days_sessions.len();
    let mut day_histories: Vec<DayHistory> = Vec::new();
    let mut i: usize = 0;
    while i < n
        invariant
            i <= n == whole.len(),
            days_sessions@ == whole,
            n <= u32::MAX,
            forall|k: int| 0 <= k < whole.len() ==> (#[trigger] whole[k]).0.wf(),
            forall|k: int, j: int|
                0 <= k < whole.len() && 0 <= j < whole[k].1@.len() ==> (
                #[trigger] whole[k].1@[j]).wf(),
            forall|k: int|
                0 <= k < whole.len() ==> (#[trigger] whole[k]).1@.len() <= u32::MAX
                    && spec_day_minutes(whole[k].1@) <= u32::MAX,
            ({
                let sel = spec_nonempty_days(whole, i as int);
                &&& day_histories@.len() == sel.len()
                &&& sel.len() <= i
                &&& forall|k: int|
                    0 <= k < sel.len() ==> (#[trigger] day_histories@[k]).date@ == whole[
                        sel[k]
                    ].0.spec_iso() && day_histories@[k].total_complete == spec_day_complete(
                        whole[sel[k]].1@,
                    ) && day_histories@[k].total_interrupted == spec_day_interrupted(
                        whole[sel[k]].1@,
                    ) && day_histories@[k].total_minutes == spec_day_minutes(whole[sel[k]].1@)
                        && day_histories@[k].sessions@.len() == whole[sel[k]].1@.len()
            }),
        decreases n - i,
    {
        let (date, sessions) = &days_sessions[i];
        if sessions.len() > 0 {
            let dh = day_history_of(date, sessions);
            day_histories.push(dh);
        }
        i = i + 1;
    }
    let total_days = day_histories.len() as u32;
    proof {
        lemma_nonempty_days_bound(whole, n as int);
    }
    SessionHistoryResponse { days: day_histories, has_more: false, total_days }
}

/// The selection of non-empty days never outgrows the scan.
proof fn lemma_nonempty_days_bound(days: Seq<(Date, Vec<Session>)>, upto: int)
    ensures
        spec_nonempty_days(days, upto).len() <= (if upto >= 0 {
            upto
        } else {
            0int
        }),
    decreases upto,
{
    if upto > 0 {
        lemma_nonempty_days_bound(days, upto - 1);
    }
}

/// One day of the weekly bar chart.
#[derive(Debug, Clone)]
pub struct DayStats {
    pub date: String,
    pub day_name: String,
    pub focus_minutes: u32,
    pub session_count: u32,
    pub is_today: bool,
}

/// The weekly bar chart's data.
#[derive(Debug, Clone)]
pub struct WeeklyStatsResponse {
    pub days: Vec<DayStats>,
    pub weekly_total_minutes: u32,
}

/// The focus minutes of a span of day summaries, added up.
pub open spec fn spec_weekly_total(days: Seq<(Date, DailySummary)>) -> int
    decreases days.len(),
{
    if days.len() == 0 {
        0
    } else {
        spec_weekly_total(days.drop_last()) + days.last().1.total_focus_minutes
    }
}

/// A span's total never shrinks along its prefixes.
proof fn lemma_weekly_total_prefix(days: Seq<(Date, DailySummary)>, i: int)
    requires
        0 <= i <= days.len(),
    ensures
        0 <= spec_weekly_total(days.take(i)) <= spec_weekly_total(days),
    decreases days.len() - i,
{
    if i == days.len() {
        assert(days.take(i) =~= days);
        lemma_weekly_total_nonneg(days);
    } else {
        lemma_weekly_total_prefix(days, i + 1);
        assert(days.take(i + 1).drop_last() =~= days.take(i));
        lemma_weekly_total_nonneg(days.take(i));
    }
}

/// A span's total is never negative.
proof fn lemma_weekly_total_nonneg(days: Seq<(Date, DailySummary)>)
    ensures
        spec_weekly_total(days) >= 0,
    decreases days.len(),
{
    if days.len() > 0 {
        lemma_weekly_total_nonneg(days.drop_last());
    }
}

/// The three-letter name of a weekday, by its Monday-based index.
pub open spec fn spec_day_abbrev(w: int) -> Seq<char> {
    if w == 0 {
        "Mon"@
    } else if w == 1 {
        "Tue"@
    } else if w == 2 {
        "Wed"@
    } else if w == 3 {
        "Thu"@
    } else if w == 4 {
        "Fri"@
    } else if w == 5 {
        "Sat"@
    } else {
        "Sun"@
    }
}

/// The three-letter name of a date's weekday.
pub fn get_day_abbreviation(date: &Date) -> (r: String)
    requires
        date.wf(),
    ensures
        r@ == spec_day_abbrev(date.spec_weekday_index()),
{
    let w = date.weekday_index();
    match w {
        0 => String::from_str("Mon"),
        1 => String::from_str("Tue"),
        2 => String::from_str("Wed"),
        3 => String::from_str("Thu"),
        4 => String::from_str("Fri"),
        5 => String::from_str("Sat"),
        _ => String::from_str("Sun"),
    }
}

/// The weekly bar chart over a span of loaded day summaries, given in
/// display order, with today marked.
pub fn get_weekly_stats(today: &Date, days: &Vec<(Date, DailySummary)>) -> (r:
    WeeklyStatsResponse)
    requires
        forall|k: int| 0 <= k < days@.len() ==> (#[trigger] days@[k]).0.wf(),
        forall|k: int|
            0 <= k < days@.len() ==> (#[trigger] days@[k]).1.complete_count + days@[
                k
            ].1.partial_count <= u32::MAX,
        spec_weekly_total(days@) <= u32::MAX,
    ensures
        r.days@.len() == days@.len(),
        r.weekly_total_minutes == spec_weekly_total(days@),
        forall|k: int|
            0 <= k < days@.len() ==> (#[trigger] r.days@[k]).date@ == days@[k].0.spec_iso()
                && r.days@[k].day_name@ == spec_day_abbrev(days@[k].0.spec_weekday_index())
                && r.days@[k].focus_minutes == days@[k].1.total_focus_minutes && r.days@[
                k
            ].session_count == days@[k].1.complete_count + days@[k].1.partial_count && r.days@[
                k
            ].is_today == (days@[k].0 == *today),
{
    let ghost whole = days@;
    let n = days.len();
    let mut out: Vec<DayStats> = Vec::new();
    let mut weekly_total_minutes: u32 = 0;
    let mut i: usize = 0;
    while i < n
        invariant
            i <= n == whole.len(),
            days@ == whole,
            forall|k: int| 0 <= k < whole.len() ==> (#[trigger] whole[k]).0.wf(),
            forall|k: int|
                0 <= k < whole.len() ==> (#[trigger] whole[k]).1.complete_count + whole[
                    k
                ].1.partial_count <= u32::MAX,
            spec_weekly_total(whole) <= u32::MAX,
            weekly_total_minutes == spec_weekly_total(whole.take(i as int)),
            out@.len() == i,
            forall|k: int|
                0 <= k < i ==> (#[trigger] out@[k]).date@ == whole[k].0.spec_iso() && out@[
                    k
                ].day_name@ == spec_day_abbrev(whole[k].0.spec_weekday_index()) && out@[
                    k
                ].focus_minutes == whole[k].1.total_focus_minutes && out@[k].session_count
                    == whole[k].1.complete_count + whole[k].1.partial_count && out@[k].is_today
                    == (whole[k].0 == *today),
        decreases n - i,
    {
        proof {
            assert(whole.take(i + 1).drop_last() =~= whole.take(i as int));
            assert(whole.take(i + 1).last() == whole[i as int]);
            lemma_weekly_total_prefix(whole, i + 1);
        }
        let (date, summary) = &days[i];
        let is_today = date.year == today.year && date.month == today.month && date.day
            == today.day;
        out.push(
            DayStats {
                date: crate::time::format_date(date),
                day_name: get_day_abbreviation(date),
                focus_minutes: summary.total_focus_minutes,
                session_count: summary.complete_count + summary.partial_count,
                is_today,
            },
        );
        weekly_total_minutes = weekly_total_minutes + summary.total_focus_minutes;
        i = i + 1;
    }
    proof {
        assert(whole.take(n as int) =~= whole);
    }
    WeeklyStatsResponse { days: out, weekly_total_minutes }
}

} // verus!
