//! Character-level text helpers: decimal rendering and parsing,
//! zero-padding, and searching, all specified over `Seq<char>`.

use vstd::prelude::*;

verus! {

use vstd::arithmetic::div_mod::lemma_fundamental_div_mod;

/// The decimal digit character for a value 0 to 9.
pub open spec fn digit_char(d: int) -> char {
    if d == 0 {
        '0'
    } else if d == 1 {
        '1'
    } else if d == 2 {
        '2'
    } else if d == 3 {
        '3'
    } else if d == 4 {
        '4'
    } else if d == 5 {
        '5'
    } else if d == 6 {
        '6'
    } else if d == 7 {
        '7'
    } else if d == 8 {
        '8'
    } else {
        '9'
    }
}

/// Whether a character is a decimal digit.
pub open spec fn is_dec_digit(c: char) -> bool {
    48 <= c as u32 <= 57
}

/// The numeric value of a decimal digit character.
pub open spec fn digit_of(c: char) -> int {
    c as u32 - 48
}

/// The usual decimal rendering of a number, most significant digit
/// first, with no leading zeros (a single zero for zero itself).
pub open spec fn spec_dec(n: nat) -> Seq<char>
    decreases n,
{
    if n < 10 {
        seq![digit_char(n as int)]
    } else {
        spec_dec(n / 10) + seq![digit_char((n % 10) as int)]
    }
}

/// The number a sequence of digit characters denotes.
pub open spec fn spec_dec_val(s: Seq<char>) -> int
    decreases s.len(),
{
    if s.len() == 0 {
        0
    } else {
        spec_dec_val(s.drop_last()) * 10 + digit_of(s.last())
    }
}

/// Two-digit zero-padded rendering, for values under 100.
pub open spec fn spec_pad2(n: nat) -> Seq<char> {
    if n < 10 {
        seq!['0'] + spec_dec(n)
    } else {
        spec_dec(n)
    }
}

/// Four-digit zero-padded rendering, for values under 10000.
pub open spec fn spec_pad4(n: nat) -> Seq<char> {
    if n < 10 {
        seq!['0', '0', '0'] + spec_dec(n)
    } else if n < 100 {
        seq!['0', '0'] + spec_dec(n)
    } else if n < 1000 {
        seq!['0'] + spec_dec(n)
    } else {
        spec_dec(n)
    }
}

/// Whether a sequence occurs somewhere in another.
pub open spec fn contains_seq(s: Seq<char>, sub: Seq<char>) -> bool {
    exists|i: int|
        0 <= i && i + sub.len() <= s.len() && #[trigger] s.subrange(i, i + sub.len()) == sub
}

/// Whether a character occurs in a sequence.
pub open spec fn contains_char(s: Seq<char>, c: char) -> bool {
    exists|i: int| 0 <= i < s.len() && s[i] == c
}

/// The position of the last occurrence of a character, if any.
pub open spec fn spec_rfind(s: Seq<char>, c: char) -> Option<int>
    decreases s.len(),
{
    if s.len() == 0 {
        None
    } else if s.last() == c {
        Some(s.len() - 1)
    } else {
        spec_rfind(s.drop_last(), c)
    }
}

/// Every digit of a decimal rendering is a digit character.
pub proof fn lemma_dec_digits_are_digits(n: nat)
    ensures
        spec_dec(n).len() >= 1,
        forall|i: int| 0 <= i < spec_dec(n).len() ==> is_dec_digit(#[trigger] spec_dec(n)[i]),
    decreases n,
{
    if n >= 10 {
        lemma_dec_digits_are_digits(n / 10);
    }
}

/// Reading a decimal rendering back gives the number it renders.
pub proof fn lemma_dec_val_round_trip(n: nat)
    ensures
        spec_dec_val(spec_dec(n)) == n,
    decreases n,
{
    if n < 10 {
        lemma_digit_char_val(n as int);
        assert(spec_dec(n).drop_last() =~= Seq::<char>::empty());
        assert(spec_dec(n).last() == digit_char(n as int));
        assert(spec_dec_val(spec_dec(n)) == spec_dec_val(spec_dec(n).drop_last()) * 10 + digit_of(
            spec_dec(n).last(),
        ));
        assert(spec_dec_val(spec_dec(n).drop_last()) == 0);
    } else {
        lemma_dec_val_round_trip(n / 10);
        lemma_digit_char_val((n % 10) as int);
        lemma_fundamental_div_mod(n as int, 10);
        assert(spec_dec(n).drop_last() =~= spec_dec(n / 10));
        assert(spec_dec(n).last() == digit_char((n % 10) as int));
        assert(spec_dec_val(spec_dec(n)) == spec_dec_val(spec_dec(n).drop_last()) * 10 + digit_of(
            spec_dec(n).last(),
        ));
        assert(spec_dec_val(spec_dec(n).drop_last()) == n / 10);
        assert(digit_of(spec_dec(n).last()) == n % 10);
        assert(n == (n / 10) * 10 + (n % 10));
    }
}

/// A digit character carries the value it was made from.
pub proof fn lemma_digit_char_val(d: int)
    requires
        0 <= d < 10,
    ensures
        digit_of(digit_char(d)) == d,
        is_dec_digit(digit_char(d)),
{
    assert('0' as u32 == 48);
    assert('1' as u32 == 49);
    assert('2' as u32 == 50);
    assert('3' as u32 == 51);
    assert('4' as u32 == 52);
    assert('5' as u32 == 53);
    assert('6' as u32 == 54);
    assert('7' as u32 == 55);
    assert('8' as u32 == 56);
    assert('9' as u32 == 57);
}

/// A digit sequence never denotes less than any of its prefixes.
pub proof fn lemma_dec_val_prefix_le(s: Seq<char>, i: int)
    requires
        0 <= i <= s.len(),
        forall|j: int| 0 <= j < s.len() ==> is_dec_digit(#[trigger] s[j]),
    ensures
        spec_dec_val(s.subrange(0, i)) <= spec_dec_val(s),
        spec_dec_val(s) >= 0,
    decreases s.len() - i,
{
    if i == s.len() {
        assert(s.subrange(0, i) =~= s);
        lemma_dec_val_nonneg(s);
    } else {
        lemma_dec_val_prefix_le(s, i + 1);
        let p = s.subrange(0, i + 1);
        assert(p.drop_last() =~= s.subrange(0, i));
        lemma_dec_val_nonneg(s.subrange(0, i));
        assert(spec_dec_val(s.subrange(0, i)) <= spec_dec_val(p));
    }
}

/// A digit sequence denotes a non-negative number.
pub proof fn lemma_dec_val_nonneg(s: Seq<char>)
    requires
        forall|j: int| 0 <= j < s.len() ==> is_dec_digit(#[trigger] s[j]),
    ensures
        spec_dec_val(s) >= 0,
    decreases s.len(),
{
    if s.len() > 0 {
        lemma_dec_val_nonneg(s.drop_last());
    }
}

/// A sequence without a given first character contains no subsequence
/// that starts with it.
pub proof fn lemma_no_first_char_no_contains(s: Seq<char>, sub: Seq<char>)
    requires
        sub.len() > 0,
        !contains_char(s, sub[0]),
    ensures
        !contains_seq(s, sub),
{
    assert forall|i: int| 0 <= i && i + sub.len() <= s.len() implies #[trigger] s.subrange(
        i,
        i + sub.len(),
    ) != sub by {
        if s.subrange(i, i + sub.len()) == sub {
            assert(s[i] == sub[0]);
        }
    }
}

/// The decimal digit as a one-character string.
pub fn digit_str(d: u32) -> (r: &'static str)
    requires
        d < 10,
    ensures
        r@ == seq![digit_char(d as int)],
{
    proof {
        reveal_strlit("0");
        reveal_strlit("1");
        reveal_strlit("2");
        reveal_strlit("3");
        reveal_strlit("4");
        reveal_strlit("5");
        reveal_strlit("6");
        reveal_strlit("7");
        reveal_strlit("8");
        reveal_strlit("9");
        assert("0"@ =~= seq![digit_char(0)]);
        assert("1"@ =~= seq![digit_char(1)]);
        assert("2"@ =~= seq![digit_char(2)]);
        assert("3"@ =~= seq![digit_char(3)]);
        assert("4"@ =~= seq![digit_char(4)]);
        assert("5"@ =~= seq![digit_char(5)]);
        assert("6"@ =~= seq![digit_char(6)]);
        assert("7"@ =~= seq![digit_char(7)]);
        assert("8"@ =~= seq![digit_char(8)]);
        assert("9"@ =~= seq![digit_char(9)]);
    }
    match d {
        0 => "0",
        1 => "1",
        2 => "2",
        3 => "3",
        4 => "4",
        5 => "5",
        6 => "6",
        7 => "7",
        8 => "8",
        _ => "9",
    }
}

/// Append the decimal rendering of a number to a string.
pub fn push_dec(s: &mut String, n: u32)
    ensures
        final(s)@ == old(s)@ + spec_dec(n as nat),
    decreases n,
{
    if n >= 10 {
        assert(n / 10 < n) by (nonlinear_arith)
            requires
                n >= 10,
        ;
        push_dec(s, n / 10);
    }
    s.append(digit_str(n % 10));
    proof {
        if n >= 10 {
            assert(final(s)@ =~= old(s)@ + spec_dec(n as nat));
        } else {
            assert(final(s)@ =~= old(s)@ + spec_dec(n as nat));
        }
    }
}

/// Append the two-digit zero-padded rendering of a number.
pub fn push_pad2(s: &mut String, n: u32)
    requires
        n < 100,
    ensures
        final(s)@ == old(s)@ + spec_pad2(n as nat),
{
    if n < 10 {
        s.append("0");
        proof {
            reveal_strlit("0");
        }
    }
    push_dec(s, n);
    proof {
        assert(final(s)@ =~= old(s)@ + spec_pad2(n as nat));
    }
}

/// Append the four-digit zero-padded rendering of a number.
pub fn push_pad4(s: &mut String, n: u32)
    requires
        n < 10000,
    ensures
        final(s)@ == old(s)@ + spec_pad4(n as nat),
{
    if n < 10 {
        s.append("000");
        proof {
            reveal_strlit("000");
        }
    } else if n < 100 {
        s.append("00");
        proof {
            reveal_strlit("00");
        }
    } else if n < 1000 {
        s.append("0");
        proof {
            reveal_strlit("0");
        }
    }
    push_dec(s, n);
    proof {
        assert(final(s)@ =~= old(s)@ + spec_pad4(n as nat));
    }
}

/// The characters of a string, in order, as a vector.
pub fn chars_of(s: &str) -> (v: Vec<char>)
    ensures
        v@ == s@,
{
    let n = s.unicode_len();
    let mut v: Vec<char> = Vec::new();
    let mut i: usize = 0;
    while i < n
        invariant
            n == s@.len(),
            i <= n,
            v@ == s@.subrange(0, i as int),
        decreases n - i,
    {
        v.push(s.get_char(i));
        assert(v@ =~= s@.subrange(0, i + 1));
        i = i + 1;
    }
    assert(v@ =~= s@);
    v
}

/// Parse the digits in `[from, to)` of `v` as a number.  Succeeds
/// exactly when the range is non-empty, holds only digits, and denotes
/// a value that fits in a `u32`.
pub fn parse_u32(v: &Vec<char>, from: usize, to: usize) -> (r: Option<u32>)
    requires
        from <= to <= v@.len(),
    ensures
        ({
            let s = v@.subrange(from as int, to as int);
            if from < to && (forall|j: int| 0 <= j < s.len() ==> is_dec_digit(#[trigger] s[j]))
                && spec_dec_val(s) <= u32::MAX {
                r == Some(spec_dec_val(s) as u32)
            } else {
                r is None
            }
        }),
{
    let ghost s = v@.subrange(from as int, to as int);
    if from == to {
        return None;
    }
    let mut acc: u64 = 0;
    let mut i: usize = from;
    while i < to
        invariant
            from <= i <= to <= v@.len(),
            s == v@.subrange(from as int, to as int),
            forall|j: int| from <= j < i ==> is_dec_digit(#[trigger] v@[j]),
            acc == spec_dec_val(s.subrange(0, i - from)),
            acc <= u32::MAX,
        decreases to - i,
    {
        let c = v[i];
        let u = c as u32;
        if u < 48 || u > 57 {
            proof {
                assert(s[i - from] == v@[i as int]);
                assert(!is_dec_digit(s[i - from]));
            }
            return None;
        }
        let d = (u - 48) as u64;
        proof {
            assert(s.subrange(0, i + 1 - from).drop_last() =~= s.subrange(0, i - from));
            assert(s.subrange(0, i + 1 - from).last() == v@[i as int]);
        }
        let next = acc * 10 + d;
        if next > u32::MAX as u64 {
            proof {
                let p = s.subrange(0, i + 1 - from);
                assert(spec_dec_val(p) == next);
                if forall|j: int| 0 <= j < s.len() ==> is_dec_digit(#[trigger] s[j]) {
                    lemma_dec_val_prefix_le(s, i + 1 - from);
                    assert(spec_dec_val(s) > u32::MAX);
                }
            }
            return None;
        }
        acc = next;
        i = i + 1;
    }
    proof {
        assert(s.subrange(0, to - from) =~= s);
        assert(forall|j: int| 0 <= j < s.len() ==> is_dec_digit(#[trigger] s[j]));
    }
    Some(acc as u32)
}

/// Whether the characters starting at `at` are exactly `prefix`.
pub fn starts_with_at(v: &Vec<char>, at: usize, end: usize, prefix: &str) -> (r: bool)
    requires
        at <= end <= v@.len(),
    ensures
        r == (at + prefix@.len() <= end && v@.subrange(at as int, at + prefix@.len())
            == prefix@),
{
    let n = prefix.unicode_len();
    if end - at < n {
        proof {
            if at + prefix@.len() <= end {
                assert(false);
            }
        }
        return false;
    }
    let mut i: usize = 0;
    while i < n
        invariant
            at + n <= end <= v@.len(),
            n == prefix@.len(),
            i <= n,
            forall|j: int| 0 <= j < i ==> v@[at + j] == prefix@[j],
        decreases n - i,
    {
        if v[at + i] != prefix.get_char(i) {
            proof {
                assert(v@.subrange(at as int, at + prefix@.len())[i as int] != prefix@[i as int]);
            }
            return false;
        }
        i = i + 1;
    }
    proof {
        assert(v@.subrange(at as int, at + prefix@.len()) =~= prefix@);
    }
    true
}

/// Whether a character occurs in `[from, to)` of `v`.
pub fn find_char_in(v: &Vec<char>, from: usize, to: usize, c: char) -> (r: bool)
    requires
        from <= to <= v@.len(),
    ensures
        r == contains_char(v@.subrange(from as int, to as int), c),
{
    let ghost s = v@.subrange(from as int, to as int);
    let mut i: usize = from;
    while i < to
        invariant
            from <= i <= to <= v@.len(),
            s == v@.subrange(from as int, to as int),
            forall|j: int| from <= j < i ==> v@[j] != c,
        decreases to - i,
    {
        if v[i] == c {
            proof {
                assert(s[i - from] == c);
            }
            return true;
        }
        i = i + 1;
    }
    proof {
        if contains_char(s, c) {
            let j = choose|j: int| 0 <= j < s.len() && s[j] == c;
            assert(v@[from + j] == c);
        }
    }
    false
}

/// Whether `needle` occurs as a block in `[from, to)` of `v`.
pub fn find_seq_in(v: &Vec<char>, from: usize, to: usize, needle: &str) -> (r: bool)
    requires
        from <= to <= v@.len(),
    ensures
        r == contains_seq(v@.subrange(from as int, to as int), needle@),
{
    let ghost s = v@.subrange(from as int, to as int);
    let n = needle.unicode_len();
    if n == 0 {
        proof {
            assert(s.subrange(0int, 0int + needle@.len() as int) =~= needle@);
        }
        return true;
    }
    if to - from < n {
        proof {
            if contains_seq(s, needle@) {
                let i = choose|i: int|
                    0 <= i && i + needle@.len() <= s.len() && #[trigger] s.subrange(
                        i,
                        i + needle@.len(),
                    ) == needle@;
            }
        }
        return false;
    }
    let mut i: usize = from;
    while i <= to - n
        invariant
            from <= i,
            i as int <= to - n + 1,
            1 <= n == needle@.len(),
            from + n <= to <= v@.len(),
            s == v@.subrange(from as int, to as int),
            forall|j: int|
                0 <= j < i - from ==> #[trigger] s.subrange(j, j + needle@.len()) != needle@,
        decreases to - i,
    {
        if starts_with_at(v, i, to, needle) {
            proof {
                assert(s.subrange(i - from, i - from + needle@.len()) =~= v@.subrange(
                    i as int,
                    i + needle@.len(),
                ));
            }
            return true;
        }
        proof {
            assert(s.subrange(i - from, i - from + needle@.len()) =~= v@.subrange(
                i as int,
                i + needle@.len(),
            ));
        }
        i = i + 1;
    }
    proof {
        if contains_seq(s, needle@) {
            let j = choose|j: int|
                0 <= j && j + needle@.len() <= s.len() && #[trigger] s.subrange(
                    j,
                    j + needle@.len(),
                ) == needle@;
            assert(j < i - from);
        }
    }
    false
}

/// The index in `[from, to)` of the last occurrence of `c`, if any.
pub fn rfind_in(v: &Vec<char>, from: usize, to: usize, c: char) -> (r: Option<usize>)
    requires
        from <= to <= v@.len(),
    ensures
        ({
            let s = v@.subrange(from as int, to as int);
            match r {
                Some(k) => from <= k < to && v@[k as int] == c && spec_rfind(s, c) == Some(
                    k - from,
                ),
                None => spec_rfind(s, c) is None,
            }
        }),
{
    let ghost s = v@.subrange(from as int, to as int);
    proof {
        assert(s.subrange(0, to - from) =~= s);
    }
    let mut i: usize = to;
    while i > from
        invariant
            from <= i <= to <= v@.len(),
            s == v@.subrange(from as int, to as int),
            spec_rfind(s, c) == spec_rfind(s.subrange(0, i - from), c),
        decreases i,
    {
        proof {
            let p = s.subrange(0, i - from);
            assert(p.drop_last() =~= s.subrange(0, i - 1 - from));
            assert(p.last() == v@[i - 1]);
        }
        if v[i - 1] == c {
            return Some(i - 1);
        }
        i = i - 1;
    }
    proof {
        assert(s.subrange(0, 0) =~= Seq::<char>::empty());
    }
    None
}


/// The position of the first occurrence of a character, if any.
pub open spec fn spec_find_char(s: Seq<char>, c: char) -> Option<int>
    decreases s.len(),
{
    if s.len() == 0 {
        None
    } else if s[0] == c {
        Some(0int)
    } else {
        match spec_find_char(s.drop_first(), c) {
            Some(i) => Some(i + 1),
            None => None,
        }
    }
}

/// Whether a sequence begins with a given prefix.
pub open spec fn spec_starts_with(s: Seq<char>, p: Seq<char>) -> bool {
    s.len() >= p.len() && s.subrange(0, p.len() as int) == p
}

/// The whitespace characters the tolerant parser strips from line
/// ends.
pub open spec fn spec_is_ws(c: char) -> bool {
    c == ' ' || c == '\t' || c == '\r' || c == '\n'
}

/// A sequence with its leading whitespace dropped.
pub open spec fn spec_trim_start(s: Seq<char>) -> Seq<char>
    decreases s.len(),
{
    if s.len() > 0 && spec_is_ws(s[0]) {
        spec_trim_start(s.drop_first())
    } else {
        s
    }
}

/// A sequence with its trailing whitespace dropped.
pub open spec fn spec_trim_end(s: Seq<char>) -> Seq<char>
    decreases s.len(),
{
    if s.len() > 0 && spec_is_ws(s.last()) {
        spec_trim_end(s.drop_last())
    } else {
        s
    }
}

/// A sequence with whitespace dropped from both ends.
pub open spec fn spec_trim(s: Seq<char>) -> Seq<char> {
    spec_trim_end(spec_trim_start(s))
}

/// A character with nothing equal to it earlier is the first
/// occurrence.
pub proof fn lemma_find_char_position(s: Seq<char>, c: char, k: int)
    requires
        0 <= k < s.len(),
        s[k] == c,
        forall|j: int| 0 <= j < k ==> s[j] != c,
    ensures
        spec_find_char(s, c) == Some(k),
    decreases k,
{
    if k > 0 {
        lemma_find_char_position(s.drop_first(), c, k - 1);
    }
}

/// Without an occurrence there is nothing to find.
pub proof fn lemma_find_char_absent(s: Seq<char>, c: char)
    requires
        forall|j: int| 0 <= j < s.len() ==> s[j] != c,
    ensures
        spec_find_char(s, c) is None,
    decreases s.len(),
{
    if s.len() > 0 {
        lemma_find_char_absent(s.drop_first(), c);
    }
}

/// A concatenation holds a character exactly when one side does.
pub proof fn lemma_contains_char_concat(a: Seq<char>, b: Seq<char>, c: char)
    ensures
        contains_char(a + b, c) <==> contains_char(a, c) || contains_char(b, c),
{
    if contains_char(a, c) {
        let i = choose|i: int| 0 <= i < a.len() && a[i] == c;
        assert((a + b)[i] == c);
    }
    if contains_char(b, c) {
        let i = choose|i: int| 0 <= i < b.len() && b[i] == c;
        assert((a + b)[a.len() + i] == c);
    }
    if contains_char(a + b, c) {
        let i = choose|i: int| 0 <= i < (a + b).len() && (a + b)[i] == c;
        if i < a.len() {
            assert(a[i] == c);
        } else {
            assert(b[i - a.len()] == c);
        }
    }
}

/// Trimming keeps whatever character was absent absent.
pub proof fn lemma_trim_preserves_absence(s: Seq<char>, c: char)
    requires
        !contains_char(s, c),
    ensures
        !contains_char(spec_trim(s), c),
{
    lemma_trim_start_subrange(s);
    lemma_trim_end_subrange(spec_trim_start(s));
    let t1 = spec_trim_start(s);
    let t = spec_trim(s);
    if contains_char(t, c) {
        let i = choose|i: int| 0 <= i < t.len() && t[i] == c;
        let k1 = choose|k: int| 0 <= k <= s.len() && t1 == s.subrange(k, s.len() as int);
        let k2 = choose|k: int| 0 <= k <= t1.len() && t == t1.subrange(0, k);
        assert(s[k1 + i] == c);
    }
}

/// Dropping leading whitespace leaves a suffix of the sequence.
pub proof fn lemma_trim_start_subrange(s: Seq<char>)
    ensures
        exists|k: int|
            0 <= k <= s.len() && #[trigger] spec_trim_start(s) == s.subrange(k, s.len() as int),
    decreases s.len(),
{
    if s.len() > 0 && spec_is_ws(s[0]) {
        lemma_trim_start_subrange(s.drop_first());
        let k = choose|k: int|
            0 <= k <= s.drop_first().len() && #[trigger] spec_trim_start(s.drop_first())
                == s.drop_first().subrange(k, s.drop_first().len() as int);
        assert(s.drop_first().subrange(k, s.drop_first().len() as int) =~= s.subrange(
            k + 1,
            s.len() as int,
        ));
        assert(spec_trim_start(s) == s.subrange(k + 1, s.len() as int));
    } else {
        assert(s.subrange(0, s.len() as int) =~= s);
        assert(spec_trim_start(s) == s.subrange(0, s.len() as int));
    }
}

/// Dropping trailing whitespace leaves a prefix of the sequence.
pub proof fn lemma_trim_end_subrange(s: Seq<char>)
    ensures
        exists|k: int| 0 <= k <= s.len() && #[trigger] spec_trim_end(s) == s.subrange(0, k),
    decreases s.len(),
{
    if s.len() > 0 && spec_is_ws(s.last()) {
        lemma_trim_end_subrange(s.drop_last());
        let k = choose|k: int|
            0 <= k <= s.drop_last().len() && #[trigger] spec_trim_end(s.drop_last())
                == s.drop_last().subrange(0, k);
        assert(s.drop_last().subrange(0, k) =~= s.subrange(0, k));
        assert(spec_trim_end(s) == s.subrange(0, k));
    } else {
        assert(s.subrange(0, s.len() as int) =~= s);
        assert(spec_trim_end(s) == s.subrange(0, s.len() as int));
    }
}

/// A sequence that neither starts nor ends with whitespace trims to
/// itself.
pub proof fn lemma_trim_noop(s: Seq<char>)
    requires
        s.len() > 0,
        !spec_is_ws(s[0]),
        !spec_is_ws(s.last()),
    ensures
        spec_trim(s) == s,
{
}

/// The claimed boundaries of leading whitespace pin down the trim.
pub proof fn lemma_trim_start_characterize(s: Seq<char>, k: int)
    requires
        0 <= k <= s.len(),
        forall|j: int| 0 <= j < k ==> spec_is_ws(#[trigger] s[j]),
        k == s.len() || !spec_is_ws(s[k]),
    ensures
        spec_trim_start(s) == s.subrange(k, s.len() as int),
    decreases k,
{
    if k == 0 {
        assert(s.subrange(0, s.len() as int) =~= s);
    } else {
        lemma_trim_start_characterize(s.drop_first(), k - 1);
        assert(s.drop_first().subrange(k - 1, s.drop_first().len() as int) =~= s.subrange(
            k,
            s.len() as int,
        ));
    }
}

/// The claimed boundaries of trailing whitespace pin down the trim.
pub proof fn lemma_trim_end_characterize(s: Seq<char>, k: int)
    requires
        0 <= k <= s.len(),
        forall|j: int| k <= j < s.len() ==> spec_is_ws(#[trigger] s[j]),
        k == 0 || !spec_is_ws(s[k - 1]),
    ensures
        spec_trim_end(s) == s.subrange(0, k),
    decreases s.len(),
{
    if k == s.len() {
        if s.len() > 0 && spec_is_ws(s.last()) {
            assert(false);
        }
        assert(s.subrange(0, k) =~= s);
    } else {
        assert(spec_is_ws(s.last()));
        lemma_trim_end_characterize(s.drop_last(), k);
        assert(s.drop_last().subrange(0, k) =~= s.subrange(0, k));
    }
}

/// The position of the first occurrence of `c` at or past `from`, with
/// nothing equal to `c` before it.
pub fn find_char_pos(v: &Vec<char>, from: usize, to: usize, c: char) -> (r: Option<usize>)
    requires
        from <= to <= v@.len(),
    ensures
        match r {
            Some(k) => from <= k < to && v@[k as int] == c && (forall|j: int|
                from <= j < k ==> v@[j] != c),
            None => forall|j: int| from <= j < to ==> v@[j] != c,
        },
{
    let mut i: usize = from;
    while i < to
        invariant
            from <= i <= to <= v@.len(),
            forall|j: int| from <= j < i ==> v@[j] != c,
        decreases to - i,
    {
        if v[i] == c {
            return Some(i);
        }
        i = i + 1;
    }
    None
}

/// The boundaries of the whitespace-trimmed middle of `[from, to)`.
pub fn trim_range(v: &Vec<char>, from: usize, to: usize) -> (r: (usize, usize))
    requires
        from <= to <= v@.len(),
    ensures
        from <= r.0 <= r.1 <= to,
        spec_trim(v@.subrange(from as int, to as int)) == v@.subrange(r.0 as int, r.1 as int),
{
    let ghost s = v@.subrange(from as int, to as int);
    let mut a: usize = from;
    while a < to && is_ws(v[a])
        invariant
            from <= a <= to <= v@.len(),
            forall|j: int| from <= j < a ==> spec_is_ws(#[trigger] v@[j]),
        decreases to - a,
    {
        a = a + 1;
    }
    proof {
        lemma_trim_start_characterize(s, a - from);
        assert(s.subrange(a - from, s.len() as int) =~= v@.subrange(a as int, to as int));
    }
    let ghost s1 = v@.subrange(a as int, to as int);
    let mut b: usize = to;
    while b > a && is_ws(v[b - 1])
        invariant
            a <= b <= to <= v@.len(),
            forall|j: int| b <= j < to ==> spec_is_ws(#[trigger] v@[j]),
        decreases b,
    {
        b = b - 1;
    }
    proof {
        lemma_trim_end_characterize(s1, b - a);
        assert(s1.subrange(0, b - a) =~= v@.subrange(a as int, b as int));
    }
    (a, b)
}

/// Whether the character is one the tolerant parser strips.
pub fn is_ws(c: char) -> (r: bool)
    ensures
        r == spec_is_ws(c),
{
    c == ' ' || c == '\t' || c == '\r' || c == '\n'
}

/// Whether two string slices hold the same characters.
pub fn str_eq(a: &str, b: &str) -> (r: bool)
    ensures
        r == (a@ == b@),
{
    let na = a.unicode_len();
    let nb = b.unicode_len();
    if na != nb {
        return false;
    }
    let mut i: usize = 0;
    while i < na
        invariant
            i <= na == a@.len(),
            na == b@.len(),
            forall|j: int| 0 <= j < i ==> a@[j] == b@[j],
        decreases na - i,
    {
        if a.get_char(i) != b.get_char(i) {
            return false;
        }
        i = i + 1;
    }
    proof {
        assert(a@ =~= b@);
    }
    true
}

} // verus!
