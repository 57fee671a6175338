//! The round-trip law of the day-file format: parsing a rendered file
//! back yields the same sessions, up to what the format keeps — the
//! count, each status, and each duration at minute granularity.

use vstd::prelude::*;

use crate::daily_file::{
    spec_bullet_prefix, spec_file_markdown, spec_from_markdown, spec_minutes_to_secs,
    spec_nominal_time, spec_no_focus_line, spec_no_sessions_line, spec_parse_hm,
    spec_parse_lines, spec_parse_session_line, spec_parsed_minutes, spec_section_prefix,
    spec_sessions_header, spec_session_lines, spec_split_lines, spec_summary_md,
};
use crate::session::{DailySummary, Session, SessionStatus, SessionType};
use crate::text::{
    contains_char, contains_seq, digit_of, is_dec_digit, lemma_contains_char_concat,
    lemma_dec_digits_are_digits, lemma_dec_val_round_trip, lemma_digit_char_val,
    lemma_find_char_position, lemma_no_first_char_no_contains,
    lemma_trim_noop, spec_dec, spec_find_char, spec_pad2, spec_rfind, spec_starts_with,
    spec_trim,
};
use crate::time::Date;

verus! {

use vstd::arithmetic::div_mod::lemma_fundamental_div_mod;
use vstd::arithmetic::div_mod::lemma_fundamental_div_mod_converse;

/// A subrange holds no character the whole lacks.
pub proof fn lemma_subrange_absence(s: Seq<char>, a: int, b: int, c: char)
    requires
        0 <= a <= b <= s.len(),
        !contains_char(s, c),
    ensures
        !contains_char(s.subrange(a, b), c),
{
    if contains_char(s.subrange(a, b), c) {
        let i = choose|i: int| 0 <= i < b - a && s.subrange(a, b)[i] == c;
        assert(s[a + i] == c);
    }
}

/// Splitting text that begins with one clean line peels that line off.
pub proof fn lemma_split_prepend(a: Seq<char>, rest: Seq<char>)
    requires
        !contains_char(a, '\n'),
    ensures
        spec_split_lines(a + seq!['\n'] + rest) == seq![a] + spec_split_lines(rest),
{
    let s = a + seq!['\n'] + rest;
    assert forall|j: int| 0 <= j < a.len() implies s[j] != '\n' by {
        assert(s[j] == a[j]);
        if a[j] == '\n' {
            assert(contains_char(a, '\n'));
        }
    }
    assert(s[a.len() as int] == '\n');
    lemma_find_char_position(s, '\n', a.len() as int);
    assert(s.subrange(0, a.len() as int) =~= a);
    assert(s.subrange(a.len() as int + 1, s.len() as int) =~= rest);
    assert(seq![s.subrange(0, a.len() as int)] + spec_split_lines(
        s.subrange(a.len() as int + 1, s.len() as int),
    ) =~= seq![a] + spec_split_lines(rest));
}

/// The last occurrence of a character, when nothing after a known
/// occurrence equals it.
pub proof fn lemma_rfind_position_concat(a: Seq<char>, c: char, b: Seq<char>)
    requires
        !contains_char(b, c),
    ensures
        spec_rfind(a + seq![c] + b, c) == Some(a.len() as int),
    decreases b.len(),
{
    let s = a + seq![c] + b;
    if b.len() == 0 {
        assert(s.last() == c);
    } else {
        assert(s.last() == b.last());
        if b.last() == c {
            assert(contains_char(b, c));
        }
        assert(!contains_char(b.drop_last(), c)) by {
            if contains_char(b.drop_last(), c) {
                let i = choose|i: int| 0 <= i < b.drop_last().len() && b.drop_last()[i] == c;
                assert(b[i] == c);
            }
        }
        lemma_rfind_position_concat(a, c, b.drop_last());
        assert(s.drop_last() =~= a + seq![c] + b.drop_last());
    }
}

/// The two digits of a zero-padded rendering, and the value they
/// denote.
pub proof fn lemma_pad2_digits(n: nat)
    requires
        n < 100,
    ensures
        spec_pad2(n).len() == 2,
        is_dec_digit(spec_pad2(n)[0]),
        is_dec_digit(spec_pad2(n)[1]),
        digit_of(spec_pad2(n)[0]) * 10 + digit_of(spec_pad2(n)[1]) == n,
{
    lemma_fundamental_div_mod(n as int, 10);
    if n < 10 {
        lemma_digit_char_val(0);
        lemma_digit_char_val(n as int);
    } else {
        lemma_digit_char_val((n / 10) as int);
        lemma_digit_char_val((n % 10) as int);
        assert(spec_dec(n) == spec_dec(n / 10) + seq![
            crate::text::digit_char((n % 10) as int),
        ]);
        assert(spec_dec(n / 10) == seq![crate::text::digit_char((n / 10) as int)]);
    }
}

/// No decimal rendering holds a non-digit character.
pub proof fn lemma_dec_no_char(n: nat, c: char)
    requires
        !is_dec_digit(c),
    ensures
        !contains_char(spec_dec(n), c),
{
    lemma_dec_digits_are_digits(n);
    if contains_char(spec_dec(n), c) {
        let i = choose|i: int| 0 <= i < spec_dec(n).len() && spec_dec(n)[i] == c;
    }
}

/// No zero-padded rendering holds a non-digit character.
pub proof fn lemma_pad2_no_char(n: nat, c: char)
    requires
        !is_dec_digit(c),
    ensures
        !contains_char(spec_pad2(n), c),
{
    lemma_dec_no_char(n, c);
    lemma_digit_char_val(0);
    if contains_char(spec_pad2(n), c) {
        let i = choose|i: int| 0 <= i < spec_pad2(n).len() && spec_pad2(n)[i] == c;
        if n < 10 {
            if i == 0 {
            } else {
                assert(spec_dec(n)[i - 1] == c);
            }
        }
    }
}

/// The session a re-read bullet line denotes: the same status and
/// minute count, wall-clock times pinned to the file's date, the type
/// defaulted to focus.
pub open spec fn spec_reparsed(s: Session, date: Date) -> Session {
    Session {
        start_time: spec_nominal_time(
            date,
            s.start_time.spec_hour(),
            s.start_time.spec_minute(),
        ),
        end_time: spec_nominal_time(date, s.end_time.spec_hour(), s.end_time.spec_minute()),
        duration_seconds: (s.duration_seconds as int / 60 * 60) as u32,
        status: s.status,
        session_type: SessionType::Focus,
    }
}

/// Each session of a list, as re-reading its line yields it.
pub open spec fn spec_reparse_all(sessions: Seq<Session>, date: Date) -> Seq<Session> {
    Seq::new(sessions.len(), |i: int| spec_reparsed(sessions[i], date))
}


/// The characters a rendered bullet line can hold: none of the given
/// character, provided neither fixed punctuation, digits, the marker
/// nor the status word uses it.
pub proof fn lemma_line_no_char(s: Session, c: char)
    requires
        !is_dec_digit(c),
        c != '-' && c != ' ' && c != ':' && c != '(' && c != ')' && c != 'm',
        !contains_char(s.status.spec_marker(), c),
        !contains_char(s.status.spec_word(), c),
    ensures
        !contains_char(s.spec_line(), c),
{
    let h1 = s.start_time.spec_hour() as nat;
    let m1 = s.start_time.spec_minute() as nat;
    let h2 = s.end_time.spec_hour() as nat;
    let m2 = s.end_time.spec_minute() as nat;
    let mins = s.spec_minutes() as nat;
    lemma_pad2_no_char(h1, c);
    lemma_pad2_no_char(m1, c);
    lemma_pad2_no_char(h2, c);
    lemma_pad2_no_char(m2, c);
    lemma_dec_no_char(mins, c);
    assert(!contains_char(seq!['-', ' '], c)) by {
        if contains_char(seq!['-', ' '], c) {
            let i = choose|i: int| 0 <= i < 2 && seq!['-', ' '][i] == c;
        }
    }
    assert(!contains_char(seq![':'], c)) by {
        if contains_char(seq![':'], c) {
            let i = choose|i: int| 0 <= i < 1 && seq![':'][i] == c;
        }
    }
    assert(!contains_char(seq![' ', '-', ' '], c)) by {
        if contains_char(seq![' ', '-', ' '], c) {
            let i = choose|i: int| 0 <= i < 3 && seq![' ', '-', ' '][i] == c;
        }
    }
    assert(!contains_char(seq![' '], c)) by {
        if contains_char(seq![' '], c) {
            let i = choose|i: int| 0 <= i < 1 && seq![' '][i] == c;
        }
    }
    assert(!contains_char(seq![' ', '('], c)) by {
        if contains_char(seq![' ', '('], c) {
            let i = choose|i: int| 0 <= i < 2 && seq![' ', '('][i] == c;
        }
    }
    assert(!contains_char(seq!['m', ')'], c)) by {
        if contains_char(seq!['m', ')'], c) {
            let i = choose|i: int| 0 <= i < 2 && seq!['m', ')'][i] == c;
        }
    }
    let l1 = seq!['-', ' '];
    let l2 = l1 + spec_pad2(h1);
    let l3 = l2 + seq![':'];
    let l4 = l3 + spec_pad2(m1);
    let l5 = l4 + seq![' ', '-', ' '];
    let l6 = l5 + spec_pad2(h2);
    let l7 = l6 + seq![':'];
    let l8 = l7 + spec_pad2(m2);
    let l9 = l8 + seq![' '];
    let l10 = l9 + s.status.spec_marker();
    let l11 = l10 + seq![' '];
    let l12 = l11 + s.status.spec_word();
    let l13 = l12 + seq![' ', '('];
    let l14 = l13 + spec_dec(mins);
    let l15 = l14 + seq!['m', ')'];
    lemma_contains_char_concat(l1, spec_pad2(h1), c);
    lemma_contains_char_concat(l2, seq![':'], c);
    lemma_contains_char_concat(l3, spec_pad2(m1), c);
    lemma_contains_char_concat(l4, seq![' ', '-', ' '], c);
    lemma_contains_char_concat(l5, spec_pad2(h2), c);
    lemma_contains_char_concat(l6, seq![':'], c);
    lemma_contains_char_concat(l7, spec_pad2(m2), c);
    lemma_contains_char_concat(l8, seq![' '], c);
    lemma_contains_char_concat(l9, s.status.spec_marker(), c);
    lemma_contains_char_concat(l10, seq![' '], c);
    lemma_contains_char_concat(l11, s.status.spec_word(), c);
    lemma_contains_char_concat(l12, seq![' ', '('], c);
    lemma_contains_char_concat(l13, spec_dec(mins), c);
    lemma_contains_char_concat(l14, seq!['m', ')'], c);
    assert(s.spec_line() == l15);
}

/// Neither status word contains a line break or a hash mark; the
/// interrupted word contains no capital C and no completion glyph, and
/// likewise the markers.
pub proof fn lemma_status_word_facts()
    ensures
        !contains_char(SessionStatus::Complete.spec_word(), '\n'),
        !contains_char(SessionStatus::Complete.spec_word(), '#'),
        !contains_char(SessionStatus::Interrupted.spec_word(), '\n'),
        !contains_char(SessionStatus::Interrupted.spec_word(), '#'),
        !contains_char(SessionStatus::Interrupted.spec_word(), 'C'),
        !contains_char(SessionStatus::Interrupted.spec_word(), '\u{2713}'),
        !contains_char(SessionStatus::Complete.spec_marker(), '\n'),
        !contains_char(SessionStatus::Complete.spec_marker(), '#'),
        !contains_char(SessionStatus::Interrupted.spec_marker(), '\n'),
        !contains_char(SessionStatus::Interrupted.spec_marker(), '#'),
        !contains_char(SessionStatus::Interrupted.spec_marker(), 'C'),
        !contains_char(SessionStatus::Interrupted.spec_marker(), '\u{2713}'),
{
    let cw = SessionStatus::Complete.spec_word();
    let iw = SessionStatus::Interrupted.spec_word();
    let cm = SessionStatus::Complete.spec_marker();
    let im = SessionStatus::Interrupted.spec_marker();
    assert forall|c: char|
        c == '\n' || c == '#' implies !contains_char(cw, c) && !contains_char(cm, c) by {
        if contains_char(cw, c) {
            let i = choose|i: int| 0 <= i < cw.len() && cw[i] == c;
        }
        if contains_char(cm, c) {
            let i = choose|i: int| 0 <= i < cm.len() && cm[i] == c;
        }
    }
    assert forall|c: char|
        c == '\n' || c == '#' || c == 'C' || c == '\u{2713}' implies !contains_char(iw, c)
        && !contains_char(im, c) by {
        if contains_char(iw, c) {
            let i = choose|i: int| 0 <= i < iw.len() && iw[i] == c;
        }
        if contains_char(im, c) {
            let i = choose|i: int| 0 <= i < im.len() && im[i] == c;
        }
    }
}

/// A rendered bullet line holds no line break and no hash mark, and
/// has the fixed shape the parser looks for at its ends.
pub proof fn lemma_line_shape(s: Session)
    requires
        s.wf(),
    ensures
        !contains_char(s.spec_line(), '\n'),
        !contains_char(s.spec_line(), '#'),
        s.spec_line().len() >= 17,
        s.spec_line()[0] == '-',
        s.spec_line()[1] == ' ',
        s.spec_line().last() == ')',
{
    lemma_status_word_facts();
    lemma_line_no_char(s, '\n');
    lemma_line_no_char(s, '#');
    let h1 = s.start_time.spec_hour() as nat;
    let m1 = s.start_time.spec_minute() as nat;
    let h2 = s.end_time.spec_hour() as nat;
    let m2 = s.end_time.spec_minute() as nat;
    let mins = s.spec_minutes() as nat;
    lemma_pad2_digits(h1);
    lemma_pad2_digits(m1);
    lemma_pad2_digits(h2);
    lemma_pad2_digits(m2);
    lemma_dec_digits_are_digits(mins);
    assert(s.spec_line()[0] == '-');
    assert(s.spec_line()[1] == ' ');
    assert(s.spec_line().last() == ')');
}


/// Reading back the line a session renders to yields exactly the
/// re-read form of that session.
#[verifier::rlimit(100)]
pub proof fn lemma_parse_line_of_serialized(s: Session, date: Date)
    requires
        s.wf(),
        date.wf(),
    ensures
        spec_parse_session_line(s.spec_line(), date) == Some(spec_reparsed(s, date)),
{
    let h1 = s.start_time.spec_hour() as nat;
    let m1 = s.start_time.spec_minute() as nat;
    let h2 = s.end_time.spec_hour() as nat;
    let m2 = s.end_time.spec_minute() as nat;
    let mins = s.spec_minutes() as nat;
    lemma_pad2_digits(h1);
    lemma_pad2_digits(m1);
    lemma_pad2_digits(h2);
    lemma_pad2_digits(m2);
    lemma_dec_digits_are_digits(mins);
    lemma_dec_val_round_trip(mins);
    lemma_status_word_facts();
    lemma_line_shape(s);
    let w = s.status.spec_word();
    let mk = s.status.spec_marker();
    let l = s.spec_line();
    let st5 = spec_pad2(h1) + seq![':'] + spec_pad2(m1);
    let en5 = spec_pad2(h2) + seq![':'] + spec_pad2(m2);
    let pre = en5 + seq![' '] + mk + seq![' '] + w + seq![' '];
    let digs = spec_dec(mins);
    let rest_expect = pre + seq!['('] + digs + seq!['m', ')'];
    assert(w.len() == 8 || w.len() == 11);
    assert(mk.len() == 1);
    assert(l.len() == 2 + 5 + 3 + 5 + 1 + 1 + 1 + w.len() + 2 + digs.len() + 2);
    let r0 = l.subrange(2, l.len() as int);
    let rest = r0.subrange(8, r0.len() as int);
    // the fixed fields sit where the parser slices them
    assert(r0.subrange(0, 5) =~= st5);
    assert(rest =~= rest_expect);
    assert(rest.subrange(0, 5) =~= en5);
    // the HH:MM fields read back as the hour and minute
    assert(st5[0] == spec_pad2(h1)[0] && st5[1] == spec_pad2(h1)[1]);
    assert(st5[2] == ':');
    assert(st5[3] == spec_pad2(m1)[0] && st5[4] == spec_pad2(m1)[1]);
    assert(spec_parse_hm(r0.subrange(0, 5)) == Some((h1 as int, m1 as int)));
    assert(en5[0] == spec_pad2(h2)[0] && en5[1] == spec_pad2(h2)[1]);
    assert(en5[2] == ':');
    assert(en5[3] == spec_pad2(m2)[0] && en5[4] == spec_pad2(m2)[1]);
    assert(spec_parse_hm(rest.subrange(0, 5)) == Some((h2 as int, m2 as int)));
    // the status reads back as itself
    if s.status == SessionStatus::Complete {
        assert(rest[6int] == mk[0]) by {
            assert(rest_expect[6] == mk[0]);
        }
        assert(contains_char(rest, '\u{2713}'));
    } else {
        assert(!contains_char(l, '\u{2713}')) by {
            lemma_line_no_char(s, '\u{2713}');
        }
        assert(!contains_char(l, 'C')) by {
            lemma_line_no_char(s, 'C');
        }
        lemma_subrange_absence(l, 2, l.len() as int, '\u{2713}');
        lemma_subrange_absence(l, 2, l.len() as int, 'C');
        lemma_subrange_absence(r0, 8, r0.len() as int, '\u{2713}');
        lemma_subrange_absence(r0, 8, r0.len() as int, 'C');
        assert(SessionStatus::Complete.spec_word()[0] == 'C');
        lemma_no_first_char_no_contains(rest, SessionStatus::Complete.spec_word());
        assert(!contains_char(rest, '\u{2713}'));
        assert(!contains_seq(rest, SessionStatus::Complete.spec_word()));
    }
    // the minute count reads back as itself
    let p = pre.len() as int;
    let q = p + 1 + digs.len() as int;
    assert(!contains_char(digs + seq!['m', ')'], '(')) by {
        lemma_dec_no_char(mins, '(');
        lemma_contains_char_concat(digs, seq!['m', ')'], '(');
        if contains_char(seq!['m', ')'], '(') {
            let i = choose|i: int| 0 <= i < 2 && seq!['m', ')'][i] == '(';
        }
    }
    assert(rest =~= pre + seq!['('] + (digs + seq!['m', ')']));
    lemma_rfind_position_concat(pre, '(', digs + seq!['m', ')']);
    assert(spec_rfind(rest, '(') == Some(p));
    assert(!contains_char(seq![')'], 'm')) by {
        if contains_char(seq![')'], 'm') {
            let i = choose|i: int| 0 <= i < 1 && seq![')'][i] == 'm';
        }
    }
    assert(rest =~= (pre + seq!['('] + digs) + seq!['m'] + seq![')']);
    lemma_rfind_position_concat(pre + seq!['('] + digs, 'm', seq![')']);
    assert(spec_rfind(rest, 'm') == Some(q));
    assert(rest.subrange(p + 1, q) =~= digs);
    assert(mins <= u32::MAX);
    assert(spec_parsed_minutes(rest) == mins);
    // minutes back to seconds never clamps for a rendered line
    assert(spec_minutes_to_secs(mins as int) == mins * 60) by {
        assert(s.duration_seconds as int / 60 <= u32::MAX as int / 60);
    }
    assert(mins * 60 == s.duration_seconds as int / 60 * 60);
    assert(spec_parse_session_line(l, date) == Some(spec_reparsed(s, date)));
}


/// Text without a hash mark yields nothing outside the sessions
/// section: no heading can reopen it.
pub proof fn lemma_parse_hash_free(content: Seq<char>, date: Date)
    requires
        !contains_char(content, '#'),
    ensures
        spec_parse_lines(spec_split_lines(content), date, false) == Seq::<Session>::empty(),
    decreases content.len(),
{
    crate::daily_file::lemma_find_char_in_bounds(content, '\n');
    match spec_find_char(content, '\n') {
        None => {
            let lines = spec_split_lines(content);
            assert(lines == seq![content]);
            assert(lines[0] == content);
            lemma_skipped_line(content, date);
            assert(lines.drop_first() =~= Seq::<Seq<char>>::empty());
            assert(spec_parse_lines(Seq::<Seq<char>>::empty(), date, false) == Seq::<
                Session,
            >::empty());
            assert(spec_parse_lines(lines, date, false) == Seq::<Session>::empty());
        },
        Some(i) => {
            let first = content.subrange(0, i);
            let rest = content.subrange(i + 1, content.len() as int);
            let lines = spec_split_lines(content);
            assert(lines == seq![first] + spec_split_lines(rest));
            assert(lines[0] == first);
            assert(lines.drop_first() =~= spec_split_lines(rest));
            lemma_subrange_absence(content, 0, i, '#');
            lemma_subrange_absence(content, i + 1, content.len() as int, '#');
            lemma_skipped_line(first, date);
            lemma_parse_hash_free(rest, date);
            assert(spec_parse_lines(lines, date, false) == Seq::<Session>::empty());
        },
    }
}

/// A line without a hash mark switches no section and, outside the
/// sessions section, adds nothing.
proof fn lemma_skipped_line(line: Seq<char>, date: Date)
    requires
        !contains_char(line, '#'),
    ensures
        !spec_starts_with(spec_trim(line), spec_sessions_header()),
        !spec_starts_with(spec_trim(line), spec_section_prefix()),
{
    let t = spec_trim(line);
    crate::text::lemma_trim_preserves_absence(line, '#');
    if spec_starts_with(t, spec_sessions_header()) {
        assert(t.subrange(0, 11)[0] == '#');
        assert(t[0] == '#');
        assert(contains_char(t, '#'));
    }
    if spec_starts_with(t, spec_section_prefix()) {
        assert(t.subrange(0, 3)[0] == '#');
        assert(t[0] == '#');
        assert(contains_char(t, '#'));
    }
}

/// The summary section's text holds no hash mark.
pub proof fn lemma_summary_tail_no_hash(summary: DailySummary)
    ensures
        !contains_char(
            if spec_summary_md(summary).len() == 0 {
                spec_no_focus_line()
            } else {
                spec_summary_md(summary) + seq!['\n']
            },
            '#',
        ),
{
    let nf = spec_no_focus_line();
    assert(!contains_char(nf, '#')) by {
        if contains_char(nf, '#') {
            let i = choose|i: int| 0 <= i < nf.len() && nf[i] == '#';
        }
    }
    let md = spec_summary_md(summary);
    if md.len() != 0 {
        lemma_summary_md_no_hash(summary);
        lemma_contains_char_concat(md, seq!['\n'], '#');
        assert(!contains_char(seq!['\n'], '#')) by {
            if contains_char(seq!['\n'], '#') {
                let i = choose|i: int| 0 <= i < 1 && seq!['\n'][i] == '#';
            }
        }
    }
}

/// The summary lines hold no hash mark.
proof fn lemma_summary_md_no_hash(summary: DailySummary)
    ensures
        !contains_char(spec_summary_md(summary), '#'),
{
    let c = '#';
    lemma_dec_no_char(summary.complete_count as nat, c);
    lemma_dec_no_char(summary.complete_minutes as nat, c);
    lemma_dec_no_char(summary.partial_count as nat, c);
    lemma_dec_no_char(summary.partial_minutes as nat, c);
    lemma_dec_no_char(summary.total_focus_minutes as nat, c);
    assert forall|p: Seq<char>|
        p == seq!['-', ' ', 'C', 'o', 'm', 'p', 'l', 'e', 't', 'e', ':', ' '] || p == seq![
            '-', ' ', 'P', 'a', 'r', 't', 'i', 'a', 'l', ':', ' ',
        ] || p == seq![
            '-', ' ', 'T', 'o', 't', 'a', 'l', ' ', 'f', 'o', 'c', 'u', 's', ':', ' ',
        ] || p == seq![' ', 's', 'e', 's', 's', 'i', 'o', 'n'] || p == seq!['s'] || p == seq![
            ' ', '(',
        ] || p == seq!['m', ')'] || p == seq!['\n'] || p == Seq::<char>::empty() implies
        !contains_char(p, c) by {
        if contains_char(p, c) {
            let i = choose|i: int| 0 <= i < p.len() && p[i] == c;
        }
    }
    let cl = crate::daily_file::spec_complete_line(summary);
    let pl = crate::daily_file::spec_partial_line(summary);
    let tl = crate::daily_file::spec_total_line(summary);
    assert(!contains_char(cl, c)) by {
        let a1 = seq!['-', ' ', 'C', 'o', 'm', 'p', 'l', 'e', 't', 'e', ':', ' '];
        let a2 = a1 + spec_dec(summary.complete_count as nat);
        let a3 = a2 + seq![' ', 's', 'e', 's', 's', 'i', 'o', 'n'];
        let a4 = a3 + (if summary.complete_count == 1 {
            Seq::<char>::empty()
        } else {
            seq!['s']
        });
        let a5 = a4 + seq![' ', '('];
        let a6 = a5 + spec_dec(summary.complete_minutes as nat);
        lemma_contains_char_concat(a1, spec_dec(summary.complete_count as nat), c);
        lemma_contains_char_concat(a2, seq![' ', 's', 'e', 's', 's', 'i', 'o', 'n'], c);
        lemma_contains_char_concat(
            a3,
            if summary.complete_count == 1 {
                Seq::<char>::empty()
            } else {
                seq!['s']
            },
            c,
        );
        lemma_contains_char_concat(a4, seq![' ', '('], c);
        lemma_contains_char_concat(a5, spec_dec(summary.complete_minutes as nat), c);
        lemma_contains_char_concat(a6, seq!['m', ')'], c);
    }
    assert(!contains_char(pl, c)) by {
        let a1 = seq!['-', ' ', 'P', 'a', 'r', 't', 'i', 'a', 'l', ':', ' '];
        let a2 = a1 + spec_dec(summary.partial_count as nat);
        let a3 = a2 + seq![' ', 's', 'e', 's', 's', 'i', 'o', 'n'];
        let a4 = a3 + (if summary.partial_count == 1 {
            Seq::<char>::empty()
        } else {
            seq!['s']
        });
        let a5 = a4 + seq![' ', '('];
        let a6 = a5 + spec_dec(summary.partial_minutes as nat);
        lemma_contains_char_concat(a1, spec_dec(summary.partial_count as nat), c);
        lemma_contains_char_concat(a2, seq![' ', 's', 'e', 's', 's', 'i', 'o', 'n'], c);
        lemma_contains_char_concat(
            a3,
            if summary.partial_count == 1 {
                Seq::<char>::empty()
            } else {
                seq!['s']
            },
            c,
        );
        lemma_contains_char_concat(a4, seq![' ', '('], c);
        lemma_contains_char_concat(a5, spec_dec(summary.partial_minutes as nat), c);
        lemma_contains_char_concat(a6, seq!['m', ')'], c);
    }
    assert(!contains_char(tl, c)) by {
        let a1 = seq!['-', ' ', 'T', 'o', 't', 'a', 'l', ' ', 'f', 'o', 'c', 'u', 's', ':', ' '];
        let a2 = a1 + spec_dec(summary.total_focus_minutes as nat);
        lemma_contains_char_concat(a1, spec_dec(summary.total_focus_minutes as nat), c);
        lemma_contains_char_concat(a2, seq!['m'], c);
        assert(!contains_char(seq!['m'], c)) by {
            if contains_char(seq!['m'], c) {
                let i = choose|i: int| 0 <= i < 1 && seq!['m'][i] == c;
            }
        }
    }
    if summary.complete_count > 0 || summary.partial_count > 0 {
        let b1 = if summary.complete_count > 0 {
            cl
        } else {
            Seq::<char>::empty()
        };
        let b2 = b1 + (if summary.complete_count > 0 && summary.partial_count > 0 {
            seq!['\n']
        } else {
            Seq::<char>::empty()
        });
        let b3 = b2 + (if summary.partial_count > 0 {
            pl
        } else {
            Seq::<char>::empty()
        });
        let b4 = b3 + seq!['\n'];
        lemma_contains_char_concat(
            b1,
            if summary.complete_count > 0 && summary.partial_count > 0 {
                seq!['\n']
            } else {
                Seq::<char>::empty()
            },
            c,
        );
        lemma_contains_char_concat(
            b2,
            if summary.partial_count > 0 {
                pl
            } else {
                Seq::<char>::empty()
            },
            c,
        );
        lemma_contains_char_concat(b3, seq!['\n'], c);
        lemma_contains_char_concat(b4, tl, c);
    }
}


/// No four-digit padded rendering holds a non-digit character.
proof fn lemma_pad4_no_char(n: nat, c: char)
    requires
        !is_dec_digit(c),
    ensures
        !contains_char(crate::text::spec_pad4(n), c),
{
    lemma_dec_no_char(n, c);
    lemma_digit_char_val(0);
    if contains_char(crate::text::spec_pad4(n), c) {
        let s = crate::text::spec_pad4(n);
        let i = choose|i: int| 0 <= i < s.len() && s[i] == c;
        if n < 10 {
            if i >= 3 {
                assert(spec_dec(n)[i - 3] == c);
            }
        } else if n < 100 {
            if i >= 2 {
                assert(spec_dec(n)[i - 2] == c);
            }
        } else if n < 1000 {
            if i >= 1 {
                assert(spec_dec(n)[i - 1] == c);
            }
        }
    }
}

/// The header line of a day file: its shape, and that it holds no line
/// break and opens no section.
proof fn lemma_date_line(d: Date)
    requires
        d.wf(),
    ensures
        !contains_char(seq!['#', ' '] + d.spec_iso(), '\n'),
        !spec_starts_with(
            spec_trim(seq!['#', ' '] + d.spec_iso()),
            spec_sessions_header(),
        ),
        !spec_starts_with(spec_trim(seq!['#', ' '] + d.spec_iso()), spec_section_prefix()),
{
    let c = '\n';
    lemma_pad4_no_char(d.year as nat, c);
    lemma_pad2_no_char(d.month as nat, c);
    lemma_pad2_no_char(d.day as nat, c);
    lemma_pad2_digits(d.month as nat);
    lemma_pad2_digits(d.day as nat);
    let a1 = seq!['#', ' '];
    let a2 = a1 + crate::text::spec_pad4(d.year as nat);
    let a3 = a2 + seq!['-'];
    let a4 = a3 + spec_pad2(d.month as nat);
    let a5 = a4 + seq!['-'];
    let a6 = a5 + spec_pad2(d.day as nat);
    assert forall|p: Seq<char>|
        p == seq!['#', ' '] || p == seq!['-'] implies !contains_char(p, c) by {
        if contains_char(p, c) {
            let i = choose|i: int| 0 <= i < p.len() && p[i] == c;
        }
    }
    lemma_contains_char_concat(a1, crate::text::spec_pad4(d.year as nat), c);
    lemma_contains_char_concat(a2, seq!['-'], c);
    lemma_contains_char_concat(a3, spec_pad2(d.month as nat), c);
    lemma_contains_char_concat(a4, seq!['-'], c);
    lemma_contains_char_concat(a5, spec_pad2(d.day as nat), c);
    let line = seq!['#', ' '] + d.spec_iso();
    assert(line =~= a6);
    assert(line[0] == '#');
    assert(line[1] == ' ');
    assert(line.last() == spec_pad2(d.day as nat)[1]);
    lemma_trim_noop(line);
    let t = spec_trim(line);
    if spec_starts_with(t, spec_sessions_header()) {
        assert(t.subrange(0, 11)[1] == t[1]);
    }
    if spec_starts_with(t, spec_section_prefix()) {
        assert(t.subrange(0, 3)[1] == t[1]);
    }
}

/// Parsing the bullet lines of a session list, then any trailing text,
/// yields the re-read sessions followed by whatever the trailing text
/// yields.
#[verifier::rlimit(100)]
pub proof fn lemma_parse_session_lines(ss: Seq<Session>, tail: Seq<char>, date: Date)
    requires
        forall|i: int| 0 <= i < ss.len() ==> (#[trigger] ss[i]).wf(),
        date.wf(),
    ensures
        spec_parse_lines(spec_split_lines(spec_session_lines(ss) + tail), date, true)
            == spec_reparse_all(ss, date) + spec_parse_lines(
            spec_split_lines(tail),
            date,
            true,
        ),
    decreases ss.len(),
{
    if ss.len() == 0 {
        assert(spec_session_lines(ss) + tail =~= tail);
        assert(spec_reparse_all(ss, date) + spec_parse_lines(spec_split_lines(tail), date, true)
            =~= spec_parse_lines(spec_split_lines(tail), date, true));
    } else {
        let s0 = ss.first();
        let line = s0.spec_line();
        let rest_ss = ss.drop_first();
        assert(s0.wf());
        lemma_line_shape(s0);
        assert(spec_session_lines(ss) + tail =~= line + seq!['\n'] + (spec_session_lines(
            rest_ss,
        ) + tail));
        lemma_split_prepend(line, spec_session_lines(rest_ss) + tail);
        let lines = spec_split_lines(spec_session_lines(ss) + tail);
        assert(lines == seq![line] + spec_split_lines(spec_session_lines(rest_ss) + tail));
        assert(lines[0] == line);
        assert(lines.drop_first() =~= spec_split_lines(spec_session_lines(rest_ss) + tail));
        lemma_trim_noop(line);
        let t = spec_trim(lines[0]);
        assert(t == line);
        if spec_starts_with(t, spec_sessions_header()) {
            assert(t.subrange(0, 11)[0] == t[0]);
            assert(false);
        }
        if spec_starts_with(t, spec_section_prefix()) {
            assert(t.subrange(0, 3)[0] == t[0]);
            assert(false);
        }
        assert(spec_starts_with(t, spec_bullet_prefix())) by {
            assert(t.subrange(0, 2) =~= spec_bullet_prefix());
        }
        lemma_parse_line_of_serialized(s0, date);
        assert forall|i: int| 0 <= i < rest_ss.len() implies (#[trigger] rest_ss[i]).wf() by {
            assert(rest_ss[i] == ss[i + 1]);
        }
        lemma_parse_session_lines(rest_ss, tail, date);
        let p = spec_parse_lines(spec_split_lines(tail), date, true);
        assert(spec_parse_lines(lines, date, true) == seq![spec_reparsed(s0, date)] + (
        spec_reparse_all(rest_ss, date) + p));
        assert(seq![spec_reparsed(s0, date)] + (spec_reparse_all(rest_ss, date) + p)
            =~= spec_reparse_all(ss, date) + p);
    }
}

/// The text after the sessions — the blank line, the summary heading
/// and the summary lines — yields no sessions, from either flag state.
#[verifier::rlimit(100)]
proof fn lemma_parse_closing(summary: DailySummary, date: Date, flag: bool)
    ensures
        spec_parse_lines(
            spec_split_lines(
                seq!['\n'] + seq!['#', '#', ' ', 'S', 'u', 'm', 'm', 'a', 'r', 'y', '\n'] + (
                if spec_summary_md(summary).len() == 0 {
                    spec_no_focus_line()
                } else {
                    spec_summary_md(summary) + seq!['\n']
                }),
            ),
            date,
            flag,
        ) == Seq::<Session>::empty(),
{
    let shw = seq!['#', '#', ' ', 'S', 'u', 'm', 'm', 'a', 'r', 'y'];
    let tail_text = if spec_summary_md(summary).len() == 0 {
        spec_no_focus_line()
    } else {
        spec_summary_md(summary) + seq!['\n']
    };
    let closing = seq!['\n'] + seq!['#', '#', ' ', 'S', 'u', 'm', 'm', 'a', 'r', 'y', '\n']
        + tail_text;
    assert(closing =~= Seq::<char>::empty() + seq!['\n'] + (shw + seq!['\n'] + tail_text));
    assert(!contains_char(Seq::<char>::empty(), '\n')) by {
        if contains_char(Seq::<char>::empty(), '\n') {
            let i = choose|i: int| 0 <= i < 0 && Seq::<char>::empty()[i] == '\n';
        }
    }
    lemma_split_prepend(Seq::<char>::empty(), shw + seq!['\n'] + tail_text);
    assert(!contains_char(shw, '\n')) by {
        if contains_char(shw, '\n') {
            let i = choose|i: int| 0 <= i < shw.len() && shw[i] == '\n';
        }
    }
    lemma_split_prepend(shw, tail_text);
    let lines = spec_split_lines(closing);
    assert(lines == seq![Seq::<char>::empty()] + (seq![shw] + spec_split_lines(tail_text)));
    // the empty line is skipped
    assert(lines[0] == Seq::<char>::empty());
    assert(spec_trim(Seq::<char>::empty()) == Seq::<char>::empty());
    assert(!spec_starts_with(Seq::<char>::empty(), spec_sessions_header()));
    assert(!spec_starts_with(Seq::<char>::empty(), spec_section_prefix()));
    assert(!spec_starts_with(Seq::<char>::empty(), spec_bullet_prefix()));
    assert(lines.drop_first() =~= seq![shw] + spec_split_lines(tail_text));
    // the summary heading closes the sessions section
    let lines2 = seq![shw] + spec_split_lines(tail_text);
    assert(lines2[0] == shw);
    assert(shw[0] == '#' && shw.last() == 'y');
    lemma_trim_noop(shw);
    assert(spec_trim(lines2[0]) == shw);
    assert(!spec_starts_with(shw, spec_sessions_header()));
    assert(spec_starts_with(shw, spec_section_prefix())) by {
        assert(shw.subrange(0, 3) =~= spec_section_prefix());
    }
    assert(lines2.drop_first() =~= spec_split_lines(tail_text));
    // and the summary lines yield nothing
    lemma_summary_tail_no_hash(summary);
    lemma_parse_hash_free(tail_text, date);
    assert(spec_parse_lines(lines2, date, flag) == Seq::<Session>::empty());
    assert(spec_parse_lines(lines, date, flag) == Seq::<Session>::empty());
}

/// The round-trip law: any sequence of sessions appended to a day
/// file, serialized and parsed back, yields the same count, the same
/// statuses, and the same minute-level durations — sub-minute
/// precision and the session type are what the format gives up.
#[verifier::rlimit(100)]
pub proof fn lemma_markdown_round_trip(date: Date, sessions: Seq<Session>, summary: DailySummary)
    requires
        date.wf(),
        forall|i: int| 0 <= i < sessions.len() ==> (#[trigger] sessions[i]).wf(),
    ensures
        spec_from_markdown(spec_file_markdown(date, sessions, summary), date)
            == spec_reparse_all(sessions, date),
        spec_reparse_all(sessions, date).len() == sessions.len(),
        forall|i: int|
            0 <= i < sessions.len() ==> (#[trigger] spec_reparse_all(sessions, date)[i]).status
                == sessions[i].status,
        forall|i: int|
            0 <= i < sessions.len() ==> (#[trigger] spec_reparse_all(sessions, date)[i]).spec_minutes()
                == sessions[i].spec_minutes(),
{
    let content = spec_file_markdown(date, sessions, summary);
    let hdr_line = seq!['#', ' '] + date.spec_iso();
    let body = if sessions.len() == 0 {
        spec_no_sessions_line()
    } else {
        spec_session_lines(sessions)
    };
    let closing = seq!['\n'] + seq!['#', '#', ' ', 'S', 'u', 'm', 'm', 'a', 'r', 'y', '\n'] + (
    if spec_summary_md(summary).len() == 0 {
        spec_no_focus_line()
    } else {
        spec_summary_md(summary) + seq!['\n']
    });
    let hdr = spec_sessions_header();
    assert(content =~= hdr_line + seq!['\n'] + (Seq::<char>::empty() + seq!['\n'] + (hdr
        + seq!['\n'] + (body + closing))));
    lemma_date_line(date);
    lemma_split_prepend(hdr_line, Seq::<char>::empty() + seq!['\n'] + (hdr + seq!['\n'] + (body
        + closing)));
    assert(!contains_char(Seq::<char>::empty(), '\n')) by {
        if contains_char(Seq::<char>::empty(), '\n') {
            let i = choose|i: int| 0 <= i < 0 && Seq::<char>::empty()[i] == '\n';
        }
    }
    lemma_split_prepend(Seq::<char>::empty(), hdr + seq!['\n'] + (body + closing));
    assert(!contains_char(hdr, '\n')) by {
        if contains_char(hdr, '\n') {
            let i = choose|i: int| 0 <= i < hdr.len() && hdr[i] == '\n';
        }
    }
    lemma_split_prepend(hdr, body + closing);
    let lines = spec_split_lines(content);
    assert(lines == seq![hdr_line] + (seq![Seq::<char>::empty()] + (seq![hdr]
        + spec_split_lines(body + closing))));
    // line one: the date heading, skipped
    assert(lines[0] == hdr_line);
    assert(lines.drop_first() =~= seq![Seq::<char>::empty()] + (seq![hdr] + spec_split_lines(
        body + closing,
    )));
    // line two: blank, skipped
    let lines2 = seq![Seq::<char>::empty()] + (seq![hdr] + spec_split_lines(body + closing));
    assert(lines2[0] == Seq::<char>::empty());
    assert(spec_trim(Seq::<char>::empty()) == Seq::<char>::empty());
    assert(lines2.drop_first() =~= seq![hdr] + spec_split_lines(body + closing));
    // line three: the sessions heading, opening the section
    let lines3 = seq![hdr] + spec_split_lines(body + closing);
    assert(lines3[0] == hdr);
    assert(hdr[0] == '#' && hdr.last() == 's');
    lemma_trim_noop(hdr);
    assert(spec_trim(lines3[0]) == hdr);
    assert(spec_starts_with(hdr, hdr)) by {
        assert(hdr.subrange(0, 11) =~= hdr);
    }
    assert(lines3.drop_first() =~= spec_split_lines(body + closing));
    assert(spec_parse_lines(lines, date, false) == spec_parse_lines(lines2, date, false));
    assert(spec_parse_lines(lines2, date, false) == spec_parse_lines(lines3, date, false));
    assert(spec_parse_lines(lines3, date, false) == spec_parse_lines(
        spec_split_lines(body + closing),
        date,
        true,
    ));
    // then the body
    if sessions.len() == 0 {
        let ns = spec_no_sessions_line().drop_last();
        assert(spec_no_sessions_line() =~= ns + seq!['\n']);
        assert(body + closing =~= ns + seq!['\n'] + closing);
        assert(!contains_char(ns, '\n')) by {
            if contains_char(ns, '\n') {
                let i = choose|i: int| 0 <= i < ns.len() && ns[i] == '\n';
                assert(spec_no_sessions_line()[i] == '\n');
            }
        }
        lemma_split_prepend(ns, closing);
        let lines4 = spec_split_lines(body + closing);
        assert(lines4 == seq![ns] + spec_split_lines(closing));
        assert(lines4[0] == ns);
        assert(ns[0] == '*' && ns.last() == '*');
        lemma_trim_noop(ns);
        assert(spec_trim(lines4[0]) == ns);
        if spec_starts_with(ns, spec_sessions_header()) {
            assert(ns.subrange(0, 11)[0] == ns[0]);
            assert(false);
        }
        if spec_starts_with(ns, spec_section_prefix()) {
            assert(ns.subrange(0, 3)[0] == ns[0]);
            assert(false);
        }
        if spec_starts_with(ns, spec_bullet_prefix()) {
            assert(ns.subrange(0, 2)[0] == ns[0]);
            assert(false);
        }
        assert(lines4.drop_first() =~= spec_split_lines(closing));
        lemma_parse_closing(summary, date, true);
        assert(spec_parse_lines(lines4, date, true) == Seq::<Session>::empty());
        assert(spec_reparse_all(sessions, date) =~= Seq::<Session>::empty());
        assert(spec_parse_lines(lines, date, false) == spec_reparse_all(sessions, date));
    } else {
        assert(body + closing =~= spec_session_lines(sessions) + closing);
        lemma_parse_session_lines(sessions, closing, date);
        lemma_parse_closing(summary, date, true);
        assert(spec_parse_lines(spec_split_lines(body + closing), date, true)
            == spec_reparse_all(sessions, date) + Seq::<Session>::empty());
        assert(spec_reparse_all(sessions, date) + Seq::<Session>::empty() =~= spec_reparse_all(
            sessions,
            date,
        ));
        assert(spec_parse_lines(lines, date, false) == spec_reparse_all(sessions, date));
    }
    // the per-session facts
    assert forall|i: int|
        0 <= i < sessions.len() implies (#[trigger] spec_reparse_all(sessions, date)[i]).spec_minutes()
        == sessions[i].spec_minutes() by {
        let d = sessions[i].duration_seconds as int;
        lemma_fundamental_div_mod(d, 60);
        assert(0 <= d / 60 * 60 <= d);
        lemma_fundamental_div_mod_converse(d / 60 * 60, 60, d / 60, 0);
    }
}

} // verus!
