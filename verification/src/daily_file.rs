//! The per-day session file: a deterministic, human-readable rendering
//! of a day's sessions, and the tolerant line-oriented parser that
//! reads it back.  Serializing and parsing are a matched pair; the
//! round-trip law lives beside them.

use vstd::prelude::*;

use crate::error::AppError;
use crate::session::{
    spec_complete_count, spec_complete_minutes, spec_partial_count, spec_partial_minutes,
    spec_summary_of, DailySummary, Session, SessionStatus, SessionType,
};
use crate::text::{
    chars_of, contains_char, contains_seq, digit_of, find_char_in, find_char_pos, find_seq_in,
    is_dec_digit, lemma_find_char_absent, lemma_find_char_position, parse_u32, push_dec,
    rfind_in, spec_dec, spec_dec_val, spec_find_char, spec_rfind, spec_starts_with, spec_trim,
    starts_with_at, trim_range,
};
use crate::time::{spec_days_from_civil, Date, LocalDateTime};

verus! {

/// The section heading that opens the list of sessions.
pub open spec fn spec_sessions_header() -> Seq<char> {
    seq!['#', '#', ' ', 'S', 'e', 's', 's', 'i', 'o', 'n', 's']
}

/// The prefix every section heading carries.
pub open spec fn spec_section_prefix() -> Seq<char> {
    seq!['#', '#', ' ']
}

/// The prefix every session bullet line carries.
pub open spec fn spec_bullet_prefix() -> Seq<char> {
    seq!['-', ' ']
}

/// The content split at line breaks, as the parser walks it.
pub open spec fn spec_split_lines(s: Seq<char>) -> Seq<Seq<char>>
    decreases s.len(),
{
    match spec_find_char(s, '\n') {
        None => seq![s],
        Some(i) => {
            if 0 <= i < s.len() {
                seq![s.subrange(0, i)] + spec_split_lines(s.subrange(i + 1, s.len() as int))
            } else {
                seq![s]
            }
        },
    }
}

/// A found position is a real, in-range occurrence.
pub proof fn lemma_find_char_in_bounds(s: Seq<char>, c: char)
    ensures
        spec_find_char(s, c) matches Some(i) ==> 0 <= i < s.len() && s[i] == c,
    decreases s.len(),
{
    if s.len() > 0 && s[0] != c {
        lemma_find_char_in_bounds(s.drop_first(), c);
    }
}

/// Reading `HH:MM`: both fields must be two digits around a colon and
/// denote a valid hour and minute.
pub open spec fn spec_parse_hm(five: Seq<char>) -> Option<(int, int)> {
    if five.len() == 5 && is_dec_digit(five[0]) && is_dec_digit(five[1]) && five[2] == ':'
        && is_dec_digit(five[3]) && is_dec_digit(five[4]) {
        let h = digit_of(five[0]) * 10 + digit_of(five[1]);
        let m = digit_of(five[3]) * 10 + digit_of(five[4]);
        if h < 24 && m < 60 {
            Some((h, m))
        } else {
            None
        }
    } else {
        None
    }
}

/// The minute count read from the tail of a bullet line: the digits
/// between the last opening parenthesis and the last `m`, zero when
/// they are missing, malformed or out of range.
pub open spec fn spec_parsed_minutes(rest: Seq<char>) -> int {
    match spec_rfind(rest, '(') {
        None => 0,
        Some(p) => match spec_rfind(rest, 'm') {
            None => 0,
            Some(q) => {
                if p + 1 <= q {
                    let digits = rest.subrange(p + 1, q);
                    if digits.len() > 0 && (forall|j: int|
                        0 <= j < digits.len() ==> is_dec_digit(#[trigger] digits[j]))
                        && spec_dec_val(digits) <= u32::MAX {
                        spec_dec_val(digits)
                    } else {
                        0
                    }
                } else {
                    0
                }
            },
        },
    }
}

/// Minutes converted back to seconds, clamped to what a `u32` holds.
pub open spec fn spec_minutes_to_secs(m: int) -> int {
    if m * 60 > u32::MAX {
        u32::MAX as int
    } else {
        m * 60
    }
}

/// The nominal wall-clock reading a parsed `HH:MM` denotes on a date.
pub open spec fn spec_nominal_time(date: Date, h: int, m: int) -> LocalDateTime {
    LocalDateTime {
        date,
        secs_of_day: (h * 3600 + m * 60) as u32,
        instant: (spec_days_from_civil(date.year as int, date.month as int, date.day as int)
            * 86400 + h * 3600 + m * 60) as i64,
    }
}

/// What one trimmed line inside the sessions section yields: a session
/// when the line fits the bullet shape, nothing otherwise.  The status
/// is read as complete when the line's tail holds the completion glyph
/// or the word `Complete`; the session type is not recorded in the
/// format, so parsed sessions default to focus.
pub open spec fn spec_parse_session_line(l: Seq<char>, date: Date) -> Option<Session> {
    if l.len() < 2 || l[0] != '-' || l[1] != ' ' {
        None
    } else {
        let r0 = l.subrange(2, l.len() as int);
        if r0.len() < 13 {
            None
        } else {
            let rest = r0.subrange(8, r0.len() as int);
            match (spec_parse_hm(r0.subrange(0, 5)), spec_parse_hm(rest.subrange(0, 5))) {
                (Some((h1, m1)), Some((h2, m2))) => {
                    let status = if contains_char(rest, '\u{2713}') || contains_seq(
                        rest,
                        SessionStatus::Complete.spec_word(),
                    ) {
                        SessionStatus::Complete
                    } else {
                        SessionStatus::Interrupted
                    };
                    Some(
                        Session {
                            start_time: spec_nominal_time(date, h1, m1),
                            end_time: spec_nominal_time(date, h2, m2),
                            duration_seconds: spec_minutes_to_secs(
                                spec_parsed_minutes(rest),
                            ) as u32,
                            status,
                            session_type: SessionType::Focus,
                        },
                    )
                },
                _ => None,
            }
        }
    }
}

/// What the parser yields from a list of raw lines: each line is
/// trimmed; section headings switch the sessions section on and off;
/// bullet lines inside it that parse become sessions; everything else
/// is ignored.
pub open spec fn spec_parse_lines(lines: Seq<Seq<char>>, date: Date, in_sessions: bool) -> Seq<
    Session,
>
    decreases lines.len(),
{
    if lines.len() == 0 {
        Seq::empty()
    } else {
        let t = spec_trim(lines[0]);
        let rest = lines.drop_first();
        if spec_starts_with(t, spec_sessions_header()) {
            spec_parse_lines(rest, date, true)
        } else if spec_starts_with(t, spec_section_prefix()) {
            spec_parse_lines(rest, date, false)
        } else if in_sessions && spec_starts_with(t, spec_bullet_prefix()) {
            match spec_parse_session_line(t, date) {
                Some(s) => seq![s] + spec_parse_lines(rest, date, true),
                None => spec_parse_lines(rest, date, true),
            }
        } else {
            spec_parse_lines(rest, date, in_sessions)
        }
    }
}

/// The sessions a stored day file's content yields.
pub open spec fn spec_from_markdown(content: Seq<char>, date: Date) -> Seq<Session> {
    spec_parse_lines(spec_split_lines(content), date, false)
}

/// The bullet lines of a session list, each with its line break.
pub open spec fn spec_session_lines(sessions: Seq<Session>) -> Seq<char>
    decreases sessions.len(),
{
    if sessions.len() == 0 {
        Seq::empty()
    } else {
        sessions.first().spec_line() + seq!['\n'] + spec_session_lines(sessions.drop_first())
    }
}

/// The `- Complete: N session(s) (Mm)` summary line.
pub open spec fn spec_complete_line(s: DailySummary) -> Seq<char> {
    seq!['-', ' ', 'C', 'o', 'm', 'p', 'l', 'e', 't', 'e', ':', ' '] + spec_dec(
        s.complete_count as nat,
    ) + seq![' ', 's', 'e', 's', 's', 'i', 'o', 'n'] + (if s.complete_count == 1 {
        Seq::<char>::empty()
    } else {
        seq!['s']
    }) + seq![' ', '('] + spec_dec(s.complete_minutes as nat) + seq!['m', ')']
}

/// The `- Partial: N session(s) (Mm)` summary line.
pub open spec fn spec_partial_line(s: DailySummary) -> Seq<char> {
    seq!['-', ' ', 'P', 'a', 'r', 't', 'i', 'a', 'l', ':', ' '] + spec_dec(
        s.partial_count as nat,
    ) + seq![' ', 's', 'e', 's', 's', 'i', 'o', 'n'] + (if s.partial_count == 1 {
        Seq::<char>::empty()
    } else {
        seq!['s']
    }) + seq![' ', '('] + spec_dec(s.partial_minutes as nat) + seq!['m', ')']
}

/// The `- Total focus: Mm` summary line.
pub open spec fn spec_total_line(s: DailySummary) -> Seq<char> {
    seq!['-', ' ', 'T', 'o', 't', 'a', 'l', ' ', 'f', 'o', 'c', 'u', 's', ':', ' '] + spec_dec(
        s.total_focus_minutes as nat,
    ) + seq!['m']
}

/// The summary section's text: the lines that apply, joined by line
/// breaks, or nothing at all when no focus session was recorded.
pub open spec fn spec_summary_md(s: DailySummary) -> Seq<char> {
    if s.complete_count > 0 || s.partial_count > 0 {
        (if s.complete_count > 0 {
            spec_complete_line(s)
        } else {
            Seq::<char>::empty()
        }) + (if s.complete_count > 0 && s.partial_count > 0 {
            seq!['\n']
        } else {
            Seq::<char>::empty()
        }) + (if s.partial_count > 0 {
            spec_partial_line(s)
        } else {
            Seq::<char>::empty()
        }) + seq!['\n'] + spec_total_line(s)
    } else {
        Seq::empty()
    }
}

/// The placeholder shown when a day has no sessions.
pub open spec fn spec_no_sessions_line() -> Seq<char> {
    seq![
        '*', 'N', 'o', ' ', 's', 'e', 's', 's', 'i', 'o', 'n', 's', ' ', 'r', 'e', 'c', 'o',
        'r', 'd', 'e', 'd', '*', '\n',
    ]
}

/// The placeholder shown when a day has no focus sessions.
pub open spec fn spec_no_focus_line() -> Seq<char> {
    seq![
        '*', 'N', 'o', ' ', 'f', 'o', 'c', 'u', 's', ' ', 's', 'e', 's', 's', 'i', 'o', 'n',
        's', ' ', 'c', 'o', 'm', 'p', 'l', 'e', 't', 'e', 'd', '*', '\n',
    ]
}

/// The whole stored text of a day: header with the ISO date, the
/// sessions section, and the summary section.
pub open spec fn spec_file_markdown(date: Date, sessions: Seq<Session>, summary: DailySummary) -> Seq<
    char,
> {
    seq!['#', ' '] + date.spec_iso() + seq!['\n', '\n'] + spec_sessions_header() + seq!['\n'] + (
    if sessions.len() == 0 {
        spec_no_sessions_line()
    } else {
        spec_session_lines(sessions)
    }) + seq!['\n'] + seq!['#', '#', ' ', 'S', 'u', 'm', 'm', 'a', 'r', 'y', '\n'] + (
    if spec_summary_md(summary).len() == 0 {
        spec_no_focus_line()
    } else {
        spec_summary_md(summary) + seq!['\n']
    })
}

impl DailySummary {
    /// Render the summary section's text.
    #[verifier::rlimit(50)]
    pub fn to_markdown(&self) -> (r: String)
        ensures
            r@ == spec_summary_md(*self),
    {
        let mut s = String::new();
        if self.complete_count > 0 || self.partial_count > 0 {
            if self.complete_count > 0 {
                push_complete_line(&mut s, self);
            }
            if self.complete_count > 0 && self.partial_count > 0 {
                s.append("\n");
                proof {
                    reveal_strlit("\n");
                }
            }
            if self.partial_count > 0 {
                push_partial_line(&mut s, self);
            }
            s.append("\n");
            push_total_line(&mut s, self);
            proof {
                reveal_strlit("\n");
                assert(s@ =~= spec_summary_md(*self));
            }
        }
        s
    }
}

/// Append the complete-sessions summary line.
fn push_complete_line(s: &mut String, sum: &DailySummary)
    ensures
        final(s)@ == old(s)@ + spec_complete_line(*sum),
{
    s.append("- Complete: ");
    push_dec(s, sum.complete_count);
    s.append(" session");
    if sum.complete_count != 1 {
        s.append("s");
    }
    s.append(" (");
    push_dec(s, sum.complete_minutes);
    s.append("m)");
    proof {
        reveal_strlit("- Complete: ");
        reveal_strlit(" session");
        reveal_strlit("s");
        reveal_strlit(" (");
        reveal_strlit("m)");
        assert(final(s)@ =~= old(s)@ + spec_complete_line(*sum));
    }
}

/// Append the partial-sessions summary line.
fn push_partial_line(s: &mut String, sum: &DailySummary)
    ensures
        final(s)@ == old(s)@ + spec_partial_line(*sum),
{
    s.append("- Partial: ");
    push_dec(s, sum.partial_count);
    s.append(" session");
    if sum.partial_count != 1 {
        s.append("s");
    }
    s.append(" (");
    push_dec(s, sum.partial_minutes);
    s.append("m)");
    proof {
        reveal_strlit("- Partial: ");
        reveal_strlit(" session");
        reveal_strlit("s");
        reveal_strlit(" (");
        reveal_strlit("m)");
        assert(final(s)@ =~= old(s)@ + spec_partial_line(*sum));
    }
}

/// Append the total-focus summary line.
fn push_total_line(s: &mut String, sum: &DailySummary)
    ensures
        final(s)@ == old(s)@ + spec_total_line(*sum),
{
    s.append("- Total focus: ");
    push_dec(s, sum.total_focus_minutes);
    s.append("m");
    proof {
        reveal_strlit("- Total focus: ");
        reveal_strlit("m");
        assert(final(s)@ =~= old(s)@ + spec_total_line(*sum));
    }
}

/// A day's stored record: the date, its sessions in append order, and
/// the summary recomputed from them.
#[derive(Debug, Clone)]
pub struct DailySessionFile {
    pub date: Date,
    pub sessions: Vec<Session>,
    pub summary: DailySummary,
}

impl DailySessionFile {
    /// A valid date, valid session times, and a summary that is the
    /// pure function of the session list.
    pub open spec fn wf(self) -> bool {
        &&& self.date.wf()
        &&& forall|i: int| 0 <= i < self.sessions@.len() ==> (#[trigger] self.sessions@[i]).wf()
        &&& spec_summary_of(self.sessions@, self.summary)
    }

    /// An empty day.
    pub fn new(date: Date) -> (r: DailySessionFile)
        requires
            date.wf(),
        ensures
            r.date == date,
            r.sessions@ == Seq::<Session>::empty(),
            r.wf(),
    {
        DailySessionFile { date, sessions: Vec::new(), summary: DailySummary::zero() }
    }

    /// Append a session and recompute the summary afresh.
    pub fn add_session(&mut self, session: Session)
        requires
            old(self).wf(),
            session.wf(),
            spec_complete_count(old(self).sessions@.push(session)) <= u32::MAX,
            spec_partial_count(old(self).sessions@.push(session)) <= u32::MAX,
            spec_complete_minutes(old(self).sessions@.push(session)) + spec_partial_minutes(
                old(self).sessions@.push(session),
            ) <= u32::MAX,
        ensures
            final(self).date == old(self).date,
            final(self).sessions@ == old(self).sessions@.push(session),
            final(self).wf(),
    {
        self.sessions.push(session);
        let summary = match try_summary(&self.sessions) {
            Some(s) => s,
            None => {
                proof {
                    assert(false);
                }
                DailySummary::zero()
            },
        };
        self.summary = summary;
    }

    /// Render the whole day file.
    #[verifier::rlimit(50)]
    pub fn to_markdown(&self) -> (r: String)
        requires
            self.wf(),
        ensures
            r@ == spec_file_markdown(self.date, self.sessions@, self.summary),
    {
        let ghost head = seq!['#', ' '] + self.date.spec_iso() + seq!['\n', '\n']
            + spec_sessions_header() + seq!['\n'];
        let mut s = String::new();
        s.append("# ");
        crate::time::push_date_iso(&mut s, &self.date);
        s.append("\n\n");
        s.append("## Sessions\n");
        proof {
            reveal_strlit("# ");
            reveal_strlit("\n\n");
            reveal_strlit("## Sessions\n");
            assert(s@ =~= head);
        }
        let n = self.sessions.len();
        if n == 0 {
            s.append("*No sessions recorded*\n");
            proof {
                reveal_strlit("*No sessions recorded*\n");
                assert(s@ =~= head + spec_no_sessions_line());
            }
        } else {
            let mut i: usize = 0;
            let ghost before = s@;
            while i < n
                invariant
                    i <= n == self.sessions@.len(),
                    forall|k: int|
                        0 <= k < self.sessions@.len() ==> (#[trigger] self.sessions@[k]).wf(),
                    s@ == before + spec_session_lines(self.sessions@.take(i as int)),
                decreases n - i,
            {
                let line = self.sessions[i].to_markdown_line();
                s.append(line.as_str());
                s.append("\n");
                proof {
                    reveal_strlit("\n");
                    lemma_session_lines_push(self.sessions@.take(i as int), self.sessions@[i as int]);
                    assert(self.sessions@.take(i + 1) =~= self.sessions@.take(i as int).push(
                        self.sessions@[i as int],
                    ));
                    assert(s@ =~= before + spec_session_lines(self.sessions@.take(i + 1)));
                }
                i = i + 1;
            }
            proof {
                assert(self.sessions@.take(n as int) =~= self.sessions@);
            }
        }
        let ghost mid = head + (if self.sessions@.len() == 0 {
            spec_no_sessions_line()
        } else {
            spec_session_lines(self.sessions@)
        });
        proof {
            assert(s@ == mid);
        }
        s.append("\n## Summary\n");
        let ghost mid2 = mid + seq!['\n'] + seq![
            '#', '#', ' ', 'S', 'u', 'm', 'm', 'a', 'r', 'y', '\n',
        ];
        proof {
            reveal_strlit("\n## Summary\n");
            assert(s@ =~= mid2);
        }
        let md = self.summary.to_markdown();
        proof {
            lemma_summary_md_empty_iff(self.summary);
        }
        if self.summary.complete_count == 0 && self.summary.partial_count == 0 {
            s.append("*No focus sessions completed*\n");
            proof {
                reveal_strlit("*No focus sessions completed*\n");
                assert(s@ =~= mid2 + spec_no_focus_line());
            }
        } else {
            s.append(md.as_str());
            s.append("\n");
            proof {
                reveal_strlit("\n");
                assert(s@ =~= mid2 + (spec_summary_md(self.summary) + seq!['\n']));
            }
        }
        proof {
            assert(s@ =~= spec_file_markdown(self.date, self.sessions@, self.summary));
        }
        s
    }

    /// Read a day file back.  Every line outside the sessions section,
    /// and every line inside it that does not fit the bullet shape, is
    /// ignored.  Fails only when the parsed sessions' summary would
    /// exceed what the counters hold.
    pub fn from_markdown(content: &str, date: Date) -> (r: Result<DailySessionFile, AppError>)
        requires
            date.wf(),
        ensures
            ({
                let parsed = spec_from_markdown(content@, date);
                if spec_complete_count(parsed) <= u32::MAX && spec_partial_count(parsed)
                    <= u32::MAX && spec_complete_minutes(parsed) + spec_partial_minutes(parsed)
                    <= u32::MAX {
                    match r {
                        Ok(f) => f.date == date && f.sessions@ == parsed && f.wf(),
                        Err(_) => false,
                    }
                } else {
                    r is Err
                }
            }),
    {
        let v = chars_of(content);
        let n = v.len();
        let ghost whole = v@;
        let mut sessions: Vec<Session> = Vec::new();
        let mut in_sessions = false;
        let mut pos: usize = 0;
        let mut done = false;
        proof {
            assert(whole.subrange(0, n as int) =~= whole);
            assert(Seq::<Session>::empty() + spec_parse_lines(
                spec_split_lines(whole),
                date,
                false,
            ) =~= spec_parse_lines(spec_split_lines(whole), date, false));
        }
        while !done
            invariant
                pos <= n == whole.len(),
                v@ == whole,
                whole == content@,
                date.wf(),
                forall|k: int| 0 <= k < sessions@.len() ==> (#[trigger] sessions@[k]).wf(),
                spec_from_markdown(whole, date) == sessions@ + (if done {
                    Seq::<Session>::empty()
                } else {
                    spec_parse_lines(
                        spec_split_lines(whole.subrange(pos as int, n as int)),
                        date,
                        in_sessions,
                    )
                }),
            decreases n - pos, (if done {
                0int
            } else {
                1int
            }),
        {
            let ghost rem = whole.subrange(pos as int, n as int);
            let line_end: usize;
            let next_pos: usize;
            match find_char_pos(&v, pos, n, '\n') {
                Some(k) => {
                    line_end = k;
                    next_pos = k + 1;
                    proof {
                        assert forall|j: int| 0 <= j < k - pos implies rem[j] != '\n' by {
                            assert(rem[j] == whole[pos + j]);
                        }
                        assert(rem[k - pos] == '\n');
                        lemma_find_char_position(rem, '\n', k - pos);
                        assert(rem.subrange(0, k - pos) =~= whole.subrange(pos as int, k as int));
                        assert(rem.subrange(k - pos + 1, rem.len() as int) =~= whole.subrange(
                            k + 1,
                            n as int,
                        ));
                    }
                },
                None => {
                    line_end = n;
                    next_pos = n;
                    proof {
                        assert forall|j: int| 0 <= j < rem.len() implies rem[j] != '\n' by {
                            assert(rem[j] == whole[pos + j]);
                        }
                        lemma_find_char_absent(rem, '\n');
                    }
                },
            }
            let ghost line = whole.subrange(pos as int, line_end as int);
            let ghost rest_lines = if line_end < n {
                spec_split_lines(whole.subrange(line_end + 1, n as int))
            } else {
                Seq::<Seq<char>>::empty()
            };
            proof {
                if line_end < n {
                    assert(spec_split_lines(rem) =~= seq![line] + rest_lines);
                    assert((seq![line] + rest_lines)[0] == line);
                    assert((seq![line] + rest_lines).drop_first() =~= rest_lines);
                } else {
                    assert(spec_split_lines(rem) =~= seq![line]);
                    assert(seq![line][0] == line);
                    assert(seq![line].drop_first() =~= Seq::<Seq<char>>::empty());
                }
            }
            let (ls, le) = trim_range(&v, pos, line_end);
            let ghost t = spec_trim(line);
            let ghost flag0 = in_sessions;
            let ghost sessions0 = sessions@;
            proof {
                assert(t == whole.subrange(ls as int, le as int));
                assert(t.len() == le - ls);
                assert forall|j: int| 0 <= j < t.len() implies t[j] == whole[ls + j] by {
                    assert(t[j] == whole.subrange(ls as int, le as int)[j]);
                }
            }
            if starts_with_at(&v, ls, le, "## Sessions") {
                proof {
                    reveal_strlit("## Sessions");
                    assert("## Sessions"@ =~= spec_sessions_header());
                    assert(t.subrange(0, spec_sessions_header().len() as int) =~= whole.subrange(
                        ls as int,
                        ls + 11,
                    ));
                    assert(spec_parse_lines(spec_split_lines(rem), date, flag0)
                        == spec_parse_lines(rest_lines, date, true));
                }
                in_sessions = true;
            } else if starts_with_at(&v, ls, le, "## ") {
                proof {
                    reveal_strlit("## Sessions");
                    reveal_strlit("## ");
                    assert("## "@ =~= spec_section_prefix());
                    assert("## Sessions"@ =~= spec_sessions_header());
                    assert(t.subrange(0, spec_section_prefix().len() as int) =~= whole.subrange(
                        ls as int,
                        ls + 3,
                    ));
                    if spec_starts_with(t, spec_sessions_header()) {
                        assert(t.subrange(0, 11)[0] == t[0]);
                        assert(whole.subrange(ls as int, ls + 11) =~= t.subrange(0, 11));
                        assert(false);
                    }
                    assert(spec_parse_lines(spec_split_lines(rem), date, flag0)
                        == spec_parse_lines(rest_lines, date, false));
                }
                in_sessions = false;
            } else {
                proof {
                    reveal_strlit("## Sessions");
                    reveal_strlit("## ");
                    assert("## "@ =~= spec_section_prefix());
                    assert("## Sessions"@ =~= spec_sessions_header());
                    if spec_starts_with(t, spec_sessions_header()) {
                        assert(whole.subrange(ls as int, ls + 11) =~= t.subrange(0, 11));
                        assert(false);
                    }
                    if spec_starts_with(t, spec_section_prefix()) {
                        assert(whole.subrange(ls as int, ls + 3) =~= t.subrange(0, 3));
                        assert(false);
                    }
                }
                if in_sessions && starts_with_at(&v, ls, le, "- ") {
                    proof {
                        reveal_strlit("- ");
                        assert("- "@ =~= spec_bullet_prefix());
                        assert(whole.subrange(ls as int, ls + 2) =~= t.subrange(0, 2));
                    }
                    match parse_session_line_at(&v, ls, le, date) {
                        Some(session) => {
                            sessions.push(session);
                            proof {
                                assert(spec_parse_lines(spec_split_lines(rem), date, flag0)
                                    == seq![session] + spec_parse_lines(rest_lines, date, true));
                                assert(sessions@ == sessions0.push(session));
                            }
                        },
                        None => {
                            proof {
                                assert(spec_parse_lines(spec_split_lines(rem), date, flag0)
                                    == spec_parse_lines(rest_lines, date, true));
                            }
                        },
                    }
                } else {
                    proof {
                        reveal_strlit("- ");
                        assert("- "@ =~= spec_bullet_prefix());
                        if in_sessions && spec_starts_with(t, spec_bullet_prefix()) {
                            assert(whole.subrange(ls as int, ls + 2) =~= t.subrange(0, 2));
                            assert(false);
                        }
                        assert(spec_parse_lines(spec_split_lines(rem), date, flag0)
                            == spec_parse_lines(rest_lines, date, flag0));
                    }
                }
            }
            proof {
                assert(spec_from_markdown(whole, date) =~= sessions@ + spec_parse_lines(
                    rest_lines,
                    date,
                    in_sessions,
                ));
            }
            if next_pos >= n && line_end >= n {
                done = true;
                proof {
                    assert(spec_parse_lines(rest_lines, date, in_sessions) =~= Seq::<
                        Session,
                    >::empty());
                    assert(sessions@ + Seq::<Session>::empty() =~= sessions@);
                }
            } else {
                proof {
                    assert(line_end < n);
                    assert(whole.subrange(line_end + 1, n as int) == whole.subrange(
                        next_pos as int,
                        n as int,
                    ));
                }
            }
            pos = next_pos;
        }
        match try_summary(&sessions) {
            Some(summary) => Ok(DailySessionFile { date, sessions, summary }),
            None => Err(
                AppError::ParseError(
                    String::from_str("session totals exceed the supported range"),
                ),
            ),
        }
    }
}

/// Appending a session appends its line to the rendered section.
pub proof fn lemma_session_lines_push(ss: Seq<Session>, x: Session)
    ensures
        spec_session_lines(ss.push(x)) == spec_session_lines(ss) + x.spec_line() + seq!['\n'],
    decreases ss.len(),
{
    assert(spec_session_lines(Seq::<Session>::empty()) =~= Seq::<char>::empty());
    if ss.len() == 0 {
        assert(ss.push(x).first() == x);
        assert(ss.push(x).drop_first() =~= Seq::<Session>::empty());
        assert(spec_session_lines(ss.push(x).drop_first()) == Seq::<char>::empty());
        assert(spec_session_lines(ss.push(x)) =~= spec_session_lines(ss) + x.spec_line()
            + seq!['\n']);
    } else {
        assert(ss.push(x).first() == ss.first());
        assert(ss.push(x).drop_first() =~= ss.drop_first().push(x));
        lemma_session_lines_push(ss.drop_first(), x);
        assert(spec_session_lines(ss.push(x).drop_first()) == spec_session_lines(
            ss.drop_first(),
        ) + x.spec_line() + seq!['\n']);
        assert(spec_session_lines(ss.push(x)) =~= spec_session_lines(ss) + x.spec_line()
            + seq!['\n']);
    }
}

/// The summary section is empty exactly when both counts are zero.
pub proof fn lemma_summary_md_empty_iff(s: DailySummary)
    ensures
        (spec_summary_md(s).len() == 0) <==> (s.complete_count == 0 && s.partial_count == 0),
{
    if s.complete_count > 0 || s.partial_count > 0 {
        assert(spec_summary_md(s).len() >= spec_total_line(s).len());
        crate::text::lemma_dec_digits_are_digits(s.total_focus_minutes as nat);
    }
}

/// Compute a session list's summary when its components fit the
/// counters; report failure exactly when they do not.
pub fn try_summary(sessions: &Vec<Session>) -> (r: Option<DailySummary>)
    ensures
        ({
            if spec_complete_count(sessions@) <= u32::MAX && spec_partial_count(sessions@)
                <= u32::MAX && spec_complete_minutes(sessions@) + spec_partial_minutes(sessions@)
                <= u32::MAX {
                r matches Some(s) && spec_summary_of(sessions@, s)
            } else {
                r is None
            }
        }),
{
    let ghost whole = sessions@;
    let mut complete_count: u32 = 0;
    let mut complete_minutes: u32 = 0;
    let mut partial_count: u32 = 0;
    let mut partial_minutes: u32 = 0;
    let n = sessions.len();
    let mut i: usize = 0;
    while i < n
        invariant
            n == whole.len(),
            i <= n,
            sessions@ == whole,
            complete_count == spec_complete_count(whole.take(i as int)),
            complete_minutes == spec_complete_minutes(whole.take(i as int)),
            partial_count == spec_partial_count(whole.take(i as int)),
            partial_minutes == spec_partial_minutes(whole.take(i as int)),
            complete_minutes + partial_minutes <= u32::MAX,
        decreases n - i,
    {
        proof {
            assert(whole.take(i + 1).drop_last() =~= whole.take(i as int));
            assert(whole.take(i + 1).last() == whole[i as int]);
        }
        let s = &sessions[i];
        if matches!(s.session_type, SessionType::Focus) {
            let minutes = s.duration_seconds / 60;
            match s.status {
                SessionStatus::Complete => {
                    if complete_count == u32::MAX || (minutes as u64) + (complete_minutes as u64)
                        + (partial_minutes as u64) > u32::MAX as u64 {
                        proof {
                            crate::session::lemma_summary_prefix_le(whole, i + 1);
                        }
                        return None;
                    }
                    complete_count = complete_count + 1;
                    complete_minutes = complete_minutes + minutes;
                },
                SessionStatus::Interrupted => {
                    if partial_count == u32::MAX || (minutes as u64) + (complete_minutes as u64)
                        + (partial_minutes as u64) > u32::MAX as u64 {
                        proof {
                            crate::session::lemma_summary_prefix_le(whole, i + 1);
                        }
                        return None;
                    }
                    partial_count = partial_count + 1;
                    partial_minutes = partial_minutes + minutes;
                },
            }
        }
        i = i + 1;
    }
    proof {
        assert(whole.take(n as int) =~= whole);
    }
    Some(
        DailySummary {
            complete_count,
            complete_minutes,
            partial_count,
            partial_minutes,
            total_focus_minutes: complete_minutes + partial_minutes,
        },
    )
}

/// Read `HH:MM` at a position.
fn parse_hm_at(v: &Vec<char>, at: usize) -> (r: Option<(u32, u32)>)
    requires
        at + 5 <= v@.len(),
    ensures
        ({
            let five = v@.subrange(at as int, at + 5);
            match r {
                Some((h, m)) => spec_parse_hm(five) == Some((h as int, m as int)) && h < 24 && m
                    < 60,
                None => spec_parse_hm(five) is None,
            }
        }),
{
    let ghost five = v@.subrange(at as int, at + 5);
    let n = v.len();
    assert(at + 5 <= n);
    let c0 = v[at] as u32;
    let c1 = v[at + 1] as u32;
    let colon = v[at + 2];
    let c3 = v[at + 3] as u32;
    let c4 = v[at + 4] as u32;
    proof {
        assert(five[0] == v@[at as int]);
        assert(five[1] == v@[at + 1]);
        assert(five[2] == v@[at + 2]);
        assert(five[3] == v@[at + 3]);
        assert(five[4] == v@[at + 4]);
    }
    if c0 < 48 || c0 > 57 || c1 < 48 || c1 > 57 || colon != ':' || c3 < 48 || c3 > 57 || c4 < 48
        || c4 > 57 {
        return None;
    }
    let h = (c0 - 48) * 10 + (c1 - 48);
    let m = (c3 - 48) * 10 + (c4 - 48);
    if h < 24 && m < 60 {
        Some((h, m))
    } else {
        None
    }
}

/// Read one trimmed bullet line of the sessions section.
fn parse_session_line_at(v: &Vec<char>, from: usize, to: usize, date: Date) -> (r: Option<
    Session,
>)
    requires
        from <= to <= v@.len(),
        date.wf(),
    ensures
        r == spec_parse_session_line(v@.subrange(from as int, to as int), date),
        r matches Some(s) ==> s.wf(),
{
    let ghost l = v@.subrange(from as int, to as int);
    if to - from < 2 {
        return None;
    }
    proof {
        assert(l[0] == v@[from as int]);
        assert(l[1] == v@[from + 1]);
    }
    if !(v[from] == '-' && v[from + 1] == ' ') {
        return None;
    }
    let r0s = from + 2;
    let ghost r0 = l.subrange(2, l.len() as int);
    if to - r0s < 13 {
        return None;
    }
    let rest_s = r0s + 8;
    let ghost rest = r0.subrange(8, r0.len() as int);
    proof {
        assert(r0.subrange(0, 5) =~= v@.subrange(r0s as int, r0s + 5));
        assert(rest =~= v@.subrange(rest_s as int, to as int));
        assert(rest.subrange(0, 5) =~= v@.subrange(rest_s as int, rest_s + 5));
    }
    let st = parse_hm_at(v, r0s);
    let en = parse_hm_at(v, rest_s);
    let (h1, m1) = match st {
        Some(p) => p,
        None => {
            return None;
        },
    };
    let (h2, m2) = match en {
        Some(p) => p,
        None => {
            return None;
        },
    };
    let complete = find_char_in(v, rest_s, to, '\u{2713}') || {
        proof {
            reveal_strlit("Complete");
            assert("Complete"@ =~= SessionStatus::Complete.spec_word());
        }
        find_seq_in(v, rest_s, to, "Complete")
    };
    let status = if complete {
        SessionStatus::Complete
    } else {
        SessionStatus::Interrupted
    };
    let minutes: u32 = match rfind_in(v, rest_s, to, '(') {
        None => {
            proof {
                assert(spec_rfind(rest, '(') is None);
                assert(spec_parsed_minutes(rest) == 0);
            }
            0
        },
        Some(p) => match rfind_in(v, rest_s, to, 'm') {
            None => {
                proof {
                    assert(spec_rfind(rest, 'm') is None);
                    assert(spec_parsed_minutes(rest) == 0);
                }
                0
            },
            Some(q) => {
                proof {
                    assert(spec_rfind(rest, '(') == Some(p - rest_s));
                    assert(spec_rfind(rest, 'm') == Some(q - rest_s));
                }
                if p + 1 <= q {
                    proof {
                        assert(rest.subrange(p + 1 - rest_s, q - rest_s) =~= v@.subrange(
                            p + 1,
                            q as int,
                        ));
                    }
                    let ghost digits = rest.subrange(p + 1 - rest_s, q - rest_s);
                    let r = match parse_u32(v, p + 1, q) {
                        Some(x) => {
                            proof {
                                assert(digits.len() > 0);
                                assert forall|j: int| 0 <= j < digits.len() implies is_dec_digit(
                                    #[trigger] digits[j],
                                ) by {
                                    assert(digits[j] == v@.subrange(p + 1, q as int)[j]);
                                }
                                crate::text::lemma_dec_val_nonneg(digits);
                                assert(spec_dec_val(digits) == x);
                                assert(spec_parsed_minutes(rest) == x);
                            }
                            x
                        },
                        None => {
                            proof {
                                assert(spec_parsed_minutes(rest) == 0);
                            }
                            0
                        },
                    };
                    r
                } else {
                    proof {
                        assert(spec_parsed_minutes(rest) == 0);
                    }
                    0
                }
            },
        },
    };
    let duration_seconds: u32 = if minutes <= u32::MAX / 60 {
        minutes * 60
    } else {
        u32::MAX
    };
    let start_time = LocalDateTime::from_date_hm(date, h1, m1);
    let end_time = LocalDateTime::from_date_hm(date, h2, m2);
    proof {
        assert(minutes == spec_parsed_minutes(rest));
        assert(duration_seconds == spec_minutes_to_secs(spec_parsed_minutes(rest)));
        assert(start_time == spec_nominal_time(date, h1 as int, m1 as int));
        assert(end_time == spec_nominal_time(date, h2 as int, m2 as int));
        assert(l.len() >= 2 && l[0] == '-' && l[1] == ' ');
        assert(r0.len() >= 13);
        assert(spec_parse_hm(r0.subrange(0, 5)) == Some((h1 as int, m1 as int)));
        assert(spec_parse_hm(rest.subrange(0, 5)) == Some((h2 as int, m2 as int)));
    }
    Some(Session { start_time, end_time, duration_seconds, status, session_type: SessionType::Focus })
}

/// Read one bullet line, as the stored format writes it, into a
/// session on the given date.
pub fn parse_session_line(line: &str, date: Date) -> (r: Option<Session>)
    requires
        date.wf(),
    ensures
        r == spec_parse_session_line(spec_trim(line@), date),
        r matches Some(s) ==> s.wf(),
{
    let v = chars_of(line);
    let (ls, le) = trim_range(&v, 0, v.len());
    proof {
        assert(v@.subrange(0, v@.len() as int) =~= v@);
    }
    parse_session_line_at(&v, ls, le, date)
}


/// The path of a date's session file under the sessions directory:
/// the ISO date with the `.md` extension.
pub fn get_session_file_path(sessions_dir: &str, date: &Date) -> (r: String)
    requires
        date.wf(),
    ensures
        r@ == sessions_dir@ + seq!['/'] + date.spec_iso() + ".md"@,
{
    let mut s = String::from_str(sessions_dir);
    s.append("/");
    crate::time::push_date_iso(&mut s, date);
    s.append(".md");
    proof {
        reveal_strlit("/");
        assert("/"@ =~= seq!['/']);
        assert(s@ =~= sessions_dir@ + seq!['/'] + date.spec_iso() + ".md"@);
    }
    s
}

} // verus!
