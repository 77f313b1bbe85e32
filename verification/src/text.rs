//! Verified text utilities: substring search, whitespace tokenization,
//! line splitting, character counting, and decimal rendering of integers.

use vstd::prelude::*;

verus! {

/// True when the character is Unicode white space, the class that
/// `str::split_whitespace` splits on.
pub open spec fn is_space(c: char) -> bool {
    let u = c as u32;
    (0x9 <= u <= 0xD) || u == 0x20 || u == 0x85 || u == 0xA0 || u == 0x1680
        || (0x2000 <= u <= 0x200A) || u == 0x2028 || u == 0x2029 || u == 0x202F
        || u == 0x205F || u == 0x3000
}

/// Executable test for the same white-space class `is_space` names.
pub fn is_space_char(c: char) -> (r: bool)
    ensures
        r == is_space(c),
{
    let u = c as u32;
    (0x9 <= u && u <= 0xD) || u == 0x20 || u == 0x85 || u == 0xA0 || u == 0x1680
        || (0x2000 <= u && u <= 0x200A) || u == 0x2028 || u == 0x2029 || u == 0x202F
        || u == 0x205F || u == 0x3000
}

/// The needle occurs as a contiguous run of characters inside the haystack.
pub open spec fn contains_seq(hay: Seq<char>, needle: Seq<char>) -> bool {
    exists|i: int|
        0 <= i && i + needle.len() <= hay.len() && #[trigger] hay.subrange(
            i,
            i + needle.len() as int,
        ) == needle
}

/// Substring search by characters, the check `str::contains` makes.
pub fn contains_sub(hay: &str, needle: &str) -> (r: bool)
    ensures
        r == contains_seq(hay@, needle@),
{
    let hn = hay.unicode_len();
    let nn = needle.unicode_len();
    if nn > hn {
        return false;
    }
    let mut i: usize = 0;
    while i <= hn - nn
        invariant
            hn == hay@.len(),
            nn == needle@.len(),
            nn <= hn,
            i <= hn - nn + 1,
            forall|k: int|
                0 <= k < i ==> #[trigger] hay@.subrange(k, k + nn as int) != needle@,
        decreases hn - nn - i + 1,
    {
        let mut j: usize = 0;
        let mut eq = true;
        while j < nn
            invariant
                hn == hay@.len(),
                nn == needle@.len(),
                i + nn <= hn,
                j <= nn,
                eq == (forall|k: int| 0 <= k < j ==> hay@[i + k] == needle@[k]),
            decreases nn - j,
        {
            if hay.get_char(i + j) != needle.get_char(j) {
                eq = false;
            }
            j += 1;
        }
        if eq {
            assert(hay@.subrange(i as int, i + nn as int) =~= needle@);
            return true;
        }
        i += 1;
    }
    assert forall|k: int|
        0 <= k && k + needle@.len() <= hay@.len() implies #[trigger] hay@.subrange(
        k,
        k + needle@.len() as int,
    ) != needle@ by {
        assert(k < i);
    }
    false
}

/// Character-by-character string equality.
pub fn str_eq(a: &str, b: &str) -> (r: bool)
    ensures
        r == (a@ == b@),
{
    let an = a.unicode_len();
    let bn = b.unicode_len();
    if an != bn {
        return false;
    }
    let mut i: usize = 0;
    while i < an
        invariant
            an == a@.len(),
            an == b@.len(),
            i <= an,
            forall|k: int| 0 <= k < i ==> a@[k] == b@[k],
        decreases an - i,
    {
        if a.get_char(i) != b.get_char(i) {
            return false;
        }
        i += 1;
    }
    proof {
        assert(a@ =~= b@);
    }
    true
}

/// How many times the character occurs in the sequence.
pub open spec fn count_char(s: Seq<char>, ch: char) -> nat
    decreases s.len(),
{
    if s.len() == 0 {
        0
    } else {
        count_char(s.drop_last(), ch) + if s.last() == ch {
            1nat
        } else {
            0nat
        }
    }
}

/// Counts occurrences of one character, as `chars().filter(..).count` would.
pub fn count_char_in(s: &str, ch: char) -> (r: usize)
    ensures
        r == count_char(s@, ch),
{
    let n = s.unicode_len();
    let mut i: usize = 0;
    let mut c: usize = 0;
    while i < n
        invariant
            n == s@.len(),
            i <= n,
            c <= i,
            c == count_char(s@.take(i as int), ch),
        decreases n - i,
    {
        proof {
            assert(s@.take(i + 1).drop_last() =~= s@.take(i as int));
            assert(s@.take(i + 1).last() == s@[i as int]);
        }
        if s.get_char(i) == ch {
            c += 1;
        }
        i += 1;
    }
    proof {
        assert(s@.take(n as int) =~= s@);
    }
    c
}

/// The sequence with every trailing occurrence of the character removed,
/// what `str::trim_end_matches` leaves for a single-character pattern.
pub open spec fn strip_trailing(s: Seq<char>, ch: char) -> Seq<char>
    decreases s.len(),
{
    if s.len() > 0 && s.last() == ch {
        strip_trailing(s.drop_last(), ch)
    } else {
        s
    }
}

/// Removes every trailing occurrence of one character.
pub fn strip_trailing_char(s: &str, ch: char) -> (r: String)
    ensures
        r@ == strip_trailing(s@, ch),
{
    let n = s.unicode_len();
    let mut k = n;
    proof {
        assert(s@.take(n as int) =~= s@);
    }
    while k > 0 && s.get_char(k - 1) == ch
        invariant
            n == s@.len(),
            k <= n,
            strip_trailing(s@, ch) == strip_trailing(s@.take(k as int), ch),
        decreases k,
    {
        proof {
            assert(s@.take(k as int).drop_last() =~= s@.take(k - 1));
            assert(s@.take(k as int).last() == s@[k - 1]);
        }
        k -= 1;
    }
    proof {
        if k > 0 {
            assert(s@.take(k as int).last() == s@[k - 1]);
        }
        assert(strip_trailing(s@.take(k as int), ch) == s@.take(k as int));
    }
    let r = s.substring_char(0, k);
    proof {
        assert(s@.subrange(0, k as int) =~= s@.take(k as int));
    }
    r.to_owned()
}

/// The position of the first white-space character at or after `i`, or the
/// length of the sequence when the rest is one run of non-space characters.
pub open spec fn token_end_from(s: Seq<char>, i: int) -> int
    decreases s.len() - i,
{
    if i < 0 || i >= s.len() || is_space(s[i]) {
        i
    } else {
        token_end_from(s, i + 1)
    }
}

proof fn lemma_token_end_bounds(s: Seq<char>, i: int)
    requires
        0 <= i <= s.len(),
    ensures
        i <= token_end_from(s, i) <= s.len(),
    decreases s.len() - i,
{
    if i < s.len() && !is_space(s[i]) {
        lemma_token_end_bounds(s, i + 1);
    }
}

proof fn lemma_token_end_run(s: Seq<char>, i: int, j: int)
    requires
        0 <= i <= j <= s.len(),
        forall|k: int| i <= k < j ==> !is_space(s[k]),
        j == s.len() || is_space(s[j]),
    ensures
        token_end_from(s, i) == j,
    decreases j - i,
{
    if i < j {
        lemma_token_end_run(s, i + 1, j);
    }
}

/// The white-space-separated tokens of the suffix starting at `i`: the
/// maximal runs of non-space characters, in order.
pub open spec fn tokens_from(s: Seq<char>, i: int) -> Seq<Seq<char>>
    decreases s.len() - i,
    via tokens_from_decreases
{
    if i < 0 || i >= s.len() {
        Seq::empty()
    } else if is_space(s[i]) {
        tokens_from(s, i + 1)
    } else {
        seq![s.subrange(i, token_end_from(s, i))] + tokens_from(s, token_end_from(s, i))
    }
}

#[via_fn]
proof fn tokens_from_decreases(s: Seq<char>, i: int) {
    if 0 <= i < s.len() && !is_space(s[i]) {
        lemma_token_end_bounds(s, i + 1);
    }
}

/// The white-space-separated tokens of the whole sequence, what
/// `str::split_whitespace` yields.
pub open spec fn tokens_of(s: Seq<char>) -> Seq<Seq<char>> {
    tokens_from(s, 0)
}

/// Splits on Unicode white space into the maximal non-space runs.
pub fn split_ws(s: &str) -> (r: Vec<String>)
    ensures
        r.deep_view() == tokens_of(s@),
{
    let n = s.unicode_len();
    let mut toks: Vec<String> = Vec::new();
    let mut i: usize = 0;
    while i < n
        invariant
            n == s@.len(),
            i <= n,
            tokens_of(s@) == toks.deep_view() + tokens_from(s@, i as int),
        decreases n - i,
    {
        let c = s.get_char(i);
        if is_space_char(c) {
            i += 1;
        } else {
            let mut j = i + 1;
            while j < n && !is_space_char(s.get_char(j))
                invariant
                    n == s@.len(),
                    i < j <= n,
                    forall|k: int| i <= k < j ==> !is_space(s@[k]),
                decreases n - j,
            {
                j += 1;
            }
            let tok = s.substring_char(i, j).to_owned();
            let ghost pre = toks.deep_view();
            toks.push(tok);
            proof {
                lemma_token_end_run(s@, i as int, j as int);
                assert(toks.deep_view() =~= pre.push(tok@));
                assert(tokens_from(s@, i as int) == seq![s@.subrange(i as int, j as int)]
                    + tokens_from(s@, j as int));
                assert(toks.deep_view() + tokens_from(s@, j as int) =~= pre + tokens_from(
                    s@,
                    i as int,
                ));
            }
            i = j;
        }
    }
    proof {
        assert(toks.deep_view() + tokens_from(s@, n as int) =~= toks.deep_view());
    }
    toks
}

/// The position of the first line feed at or after `i`, or the length of
/// the sequence when none follows.
pub open spec fn line_end_from(s: Seq<char>, i: int) -> int
    decreases s.len() - i,
{
    if i < 0 || i >= s.len() || s[i] == '\n' {
        i
    } else {
        line_end_from(s, i + 1)
    }
}

proof fn lemma_line_end_bounds(s: Seq<char>, i: int)
    requires
        0 <= i <= s.len(),
    ensures
        i <= line_end_from(s, i) <= s.len(),
    decreases s.len() - i,
{
    if i < s.len() && s[i] != '\n' {
        lemma_line_end_bounds(s, i + 1);
    }
}

proof fn lemma_line_end_run(s: Seq<char>, i: int, j: int)
    requires
        0 <= i <= j <= s.len(),
        forall|k: int| i <= k < j ==> s[k] != '\n',
        j == s.len() || s[j] == '\n',
    ensures
        line_end_from(s, i) == j,
    decreases j - i,
{
    if i < j {
        lemma_line_end_run(s, i + 1, j);
    }
}

/// A line segment with one carriage return stripped from its end, the way
/// a line terminated by "\r\n" loses the '\r'.
pub open spec fn strip_cr(t: Seq<char>) -> Seq<char> {
    if t.len() > 0 && t.last() == '\r' {
        t.drop_last()
    } else {
        t
    }
}

/// The lines of the suffix starting at `i`, as `str::lines` yields them:
/// split at each line feed, a '\r' just before the line feed stripped, and
/// a final segment without a terminator kept whole.
pub open spec fn lines_from(s: Seq<char>, i: int) -> Seq<Seq<char>>
    decreases s.len() - i,
    via lines_from_decreases
{
    if i < 0 || i >= s.len() {
        Seq::empty()
    } else {
        let e = line_end_from(s, i);
        if e >= s.len() {
            seq![s.subrange(i, s.len() as int)]
        } else {
            seq![strip_cr(s.subrange(i, e))] + lines_from(s, e + 1)
        }
    }
}

#[via_fn]
proof fn lines_from_decreases(s: Seq<char>, i: int) {
    if 0 <= i < s.len() {
        lemma_line_end_bounds(s, i);
    }
}

/// The lines of the whole sequence, what `str::lines` yields.
pub open spec fn lines_of(s: Seq<char>) -> Seq<Seq<char>> {
    lines_from(s, 0)
}

/// Splits into lines as `str::lines` does.
pub fn split_lines(s: &str) -> (r: Vec<String>)
    ensures
        r.deep_view() == lines_of(s@),
{
    let n = s.unicode_len();
    let mut out: Vec<String> = Vec::new();
    let mut i: usize = 0;
    while i < n
        invariant
            n == s@.len(),
            i <= n,
            lines_of(s@) == out.deep_view() + lines_from(s@, i as int),
        decreases n - i,
    {
        let mut j = i;
        while j < n && s.get_char(j) != '\n'
            invariant
                n == s@.len(),
                i <= j <= n,
                forall|k: int| i <= k < j ==> s@[k] != '\n',
            decreases n - j,
        {
            j += 1;
        }
        proof {
            lemma_line_end_run(s@, i as int, j as int);
        }
        let ghost pre = out.deep_view();
        if j == n {
            let seg = s.substring_char(i, j).to_owned();
            out.push(seg);
            proof {
                assert(out.deep_view() =~= pre.push(seg@));
                assert(lines_from(s@, i as int) == seq![s@.subrange(i as int, n as int)]);
                assert(out.deep_view() + lines_from(s@, n as int) =~= pre + lines_from(
                    s@,
                    i as int,
                ));
            }
            i = n;
        } else {
            let seg = if j > i && s.get_char(j - 1) == '\r' {
                let t = s.substring_char(i, j - 1).to_owned();
                proof {
                    assert(s@.subrange(i as int, j as int).last() == s@[j - 1]);
                    assert(s@.subrange(i as int, j as int).drop_last() =~= s@.subrange(
                        i as int,
                        j - 1,
                    ));
                    assert(t@ == strip_cr(s@.subrange(i as int, j as int)));
                }
                t
            } else {
                let t = s.substring_char(i, j).to_owned();
                proof {
                    if s@.subrange(i as int, j as int).len() > 0 {
                        assert(s@.subrange(i as int, j as int).last() == s@[j - 1]);
                    }
                    assert(t@ == strip_cr(s@.subrange(i as int, j as int)));
                }
                t
            };
            out.push(seg);
            proof {
                assert(out.deep_view() =~= pre.push(seg@));
                assert(lines_from(s@, i as int) == seq![strip_cr(s@.subrange(i as int, j as int))]
                    + lines_from(s@, j + 1));
                assert(out.deep_view() + lines_from(s@, j + 1) =~= pre + lines_from(s@, i as int));
            }
            i = j + 1;
        }
    }
    proof {
        assert(out.deep_view() + lines_from(s@, i as int) =~= out.deep_view());
    }
    out
}

/// An ASCII decimal digit.
pub open spec fn is_digit(c: char) -> bool {
    48 <= c as u32 <= 57
}

/// The position of the first non-digit at or after `i`, or the length of
/// the sequence when only digits follow.
pub open spec fn digits_end(s: Seq<char>, i: int) -> int
    decreases s.len() - i,
{
    if i < 0 || i >= s.len() || !is_digit(s[i]) {
        i
    } else {
        digits_end(s, i + 1)
    }
}

proof fn lemma_digits_end_run(s: Seq<char>, i: int, j: int)
    requires
        0 <= i <= j <= s.len(),
        forall|k: int| i <= k < j ==> is_digit(s[k]),
        j == s.len() || !is_digit(s[j]),
    ensures
        digits_end(s, i) == j,
    decreases j - i,
{
    if i < j {
        lemma_digits_end_run(s, i + 1, j);
    }
}

/// From `i` on the sequence holds a float exponent running to its end:
/// 'e' or 'E', an optional sign, then one or more digits.
pub open spec fn is_exp_from(s: Seq<char>, i: int) -> bool {
    &&& 0 <= i < s.len()
    &&& (s[i] == 'e' || s[i] == 'E')
    &&& {
        let j: int = if i + 1 < s.len() && (s[i + 1] == '+' || s[i + 1] == '-') {
            i + 2
        } else {
            i + 1
        };
        j < s.len() + 1 && digits_end(s, j) == s.len() && s.len() > j
    }
}

/// From `i` the sequence holds an unsigned float number running to its
/// end: digits, an optional dot with digits on at least one side, and an
/// optional exponent.
pub open spec fn is_number_from(s: Seq<char>, i: int) -> bool {
    let d1 = digits_end(s, i);
    if d1 >= s.len() {
        d1 > i
    } else if s[d1] == '.' {
        let d2 = digits_end(s, d1 + 1);
        &&& (d1 > i || d2 > d1 + 1)
        &&& (d2 >= s.len() || is_exp_from(s, d2))
    } else {
        d1 > i && is_exp_from(s, d1)
    }
}

/// The character matches a lowercase letter, ignoring ASCII case.
pub open spec fn matches_ci(c: char, l: char) -> bool {
    c == l || (97 <= l as u32 <= 122 && c as u32 + 32 == l as u32)
}

/// The two sequences agree up to ASCII case; the second is lowercase.
pub open spec fn eq_ci(t: Seq<char>, kw: Seq<char>) -> bool {
    t.len() == kw.len() && forall|k: int| 0 <= k < t.len() ==> matches_ci(t[k], #[trigger] kw[k])
}

/// The text parses as a float under the grammar `f64::from_str` documents:
/// an optional sign, then case-insensitively "inf", "infinity" or "nan",
/// or a number with optional fraction and exponent.
pub open spec fn is_float_text(s: Seq<char>) -> bool {
    let b: int = if s.len() > 0 && (s[0] == '+' || s[0] == '-') {
        1
    } else {
        0
    };
    let t = s.subrange(b, s.len() as int);
    ||| eq_ci(t, "inf"@)
    ||| eq_ci(t, "infinity"@)
    ||| eq_ci(t, "nan"@)
    ||| is_number_from(s, b)
}

/// The suffix of `s` from `from` equals the lowercase keyword up to case.
fn suffix_eq_ci(s: &str, from: usize, kw: &str) -> (r: bool)
    requires
        from <= s@.len(),
    ensures
        r == eq_ci(s@.subrange(from as int, s@.len() as int), kw@),
{
    let n = s.unicode_len();
    let m = kw.unicode_len();
    if n - from != m {
        return false;
    }
    let mut k: usize = 0;
    while k < m
        invariant
            n == s@.len(),
            m == kw@.len(),
            from + m == n,
            k <= m,
            forall|q: int| 0 <= q < k ==> matches_ci(s@[from + q], #[trigger] kw@[q]),
        decreases m - k,
    {
        let c = s.get_char(from + k);
        let l = kw.get_char(k);
        let cu = c as u32;
        let lu = l as u32;
        if !(c == l || (97 <= lu && lu <= 122 && cu + 32 == lu)) {
            assert(!matches_ci(s@[from + k], kw@[k as int]));
            assert(s@.subrange(from as int, n as int)[k as int] == s@[from + k]);
            return false;
        }
        k += 1;
    }
    proof {
        assert forall|q: int| 0 <= q < m implies matches_ci(
            s@.subrange(from as int, n as int)[q],
            #[trigger] kw@[q],
        ) by {
            assert(s@.subrange(from as int, n as int)[q] == s@[from + q]);
        }
    }
    true
}

/// Executable test for an ASCII decimal digit.
pub fn is_digit_char(c: char) -> (r: bool)
    ensures
        r == is_digit(c),
{
    let u = c as u32;
    48 <= u && u <= 57
}

/// The position of the first non-digit at or after `i`.
fn digits_end_in(s: &str, i: usize) -> (r: usize)
    requires
        i <= s@.len(),
    ensures
        r == digits_end(s@, i as int),
        i <= r <= s@.len(),
{
    let n = s.unicode_len();
    let mut j = i;
    while j < n && is_digit_char(s.get_char(j))
        invariant
            n == s@.len(),
            i <= j <= n,
            forall|k: int| i <= k < j ==> is_digit(s@[k]),
        decreases n - j,
    {
        j += 1;
    }
    proof {
        lemma_digits_end_run(s@, i as int, j as int);
    }
    j
}

fn exp_from(s: &str, i: usize) -> (r: bool)
    requires
        i <= s@.len(),
    ensures
        r == is_exp_from(s@, i as int),
{
    let n = s.unicode_len();
    if i >= n {
        return false;
    }
    let c = s.get_char(i);
    if c != 'e' && c != 'E' {
        return false;
    }
    let j = if i + 1 < n {
        let c1 = s.get_char(i + 1);
        if c1 == '+' || c1 == '-' {
            i + 2
        } else {
            i + 1
        }
    } else {
        i + 1
    };
    if j > n {
        return false;
    }
    let d = digits_end_in(s, j);
    d == n && n > j
}

/// Decides whether the text parses as a float, the check the percent
/// extraction makes where `f64::from_str` would.
pub fn is_float_str(s: &str) -> (r: bool)
    ensures
        r == is_float_text(s@),
{
    let n = s.unicode_len();
    let b: usize = if n > 0 {
        let c = s.get_char(0);
        if c == '+' || c == '-' {
            1
        } else {
            0
        }
    } else {
        0
    };
    if suffix_eq_ci(s, b, "inf") || suffix_eq_ci(s, b, "infinity") || suffix_eq_ci(s, b, "nan") {
        return true;
    }
    let d1 = digits_end_in(s, b);
    if d1 >= n {
        d1 > b
    } else if s.get_char(d1) == '.' {
        let d2 = digits_end_in(s, d1 + 1);
        (d1 > b || d2 > d1 + 1) && (d2 >= n || exp_from(s, d2))
    } else {
        d1 > b && exp_from(s, d1)
    }
}

/// The decimal digit character for a value below ten.
pub open spec fn dec_digit(d: int) -> char {
    if d == 0 {
        '0'
    } else if d == 1 {
        '1'
    } else if d == 2 {
        '2'
    } else if d == 3 {
        '3'
    } else if d == 4 {
        '4'
    } else if d == 5 {
        '5'
    } else if d == 6 {
        '6'
    } else if d == 7 {
        '7'
    } else if d == 8 {
        '8'
    } else {
        '9'
    }
}

/// The decimal rendering of a natural number, most significant digit first.
pub open spec fn dec_nat(n: nat) -> Seq<char>
    decreases n,
{
    if n < 10 {
        seq![dec_digit(n as int)]
    } else {
        dec_nat(n / 10) + seq![dec_digit((n % 10) as int)]
    }
}

/// The decimal rendering of an integer, with a leading minus sign when negative.
pub open spec fn dec_int(n: int) -> Seq<char> {
    if n < 0 {
        seq!['-'] + dec_nat((-n) as nat)
    } else {
        dec_nat(n as nat)
    }
}

fn digit_str(d: u64) -> (r: &'static str)
    requires
        d < 10,
    ensures
        r@ == seq![dec_digit(d as int)],
{
    proof {
        reveal_strlit("0");
        reveal_strlit("1");
        reveal_strlit("2");
        reveal_strlit("3");
        reveal_strlit("4");
        reveal_strlit("5");
        reveal_strlit("6");
        reveal_strlit("7");
        reveal_strlit("8");
        reveal_strlit("9");
    }
    match d {
        0 => "0",
        1 => "1",
        2 => "2",
        3 => "3",
        4 => "4",
        5 => "5",
        6 => "6",
        7 => "7",
        8 => "8",
        _ => "9",
    }
}

/// Renders an unsigned integer in decimal.
pub fn u64_to_string(n: u64) -> (r: String)
    ensures
        r@ == dec_nat(n as nat),
    decreases n,
{
    if n < 10 {
        digit_str(n).to_owned()
    } else {
        let mut s = u64_to_string(n / 10);
        s.append(digit_str(n % 10));
        s
    }
}

/// Renders a signed integer in decimal, as `format!("{}", n)` does.
pub fn i64_to_string(n: i64) -> (r: String)
    ensures
        r@ == dec_int(n as int),
{
    if n >= 0 {
        u64_to_string(n as u64)
    } else {
        let mag: u64 = if n == i64::MIN {
            9223372036854775808u64
        } else {
            (-n) as u64
        };
        proof {
            reveal_strlit("-");
        }
        let mut s = String::from_str("-");
        let digits = u64_to_string(mag);
        s.append(digits.as_str());
        proof {
            assert(s@ =~= dec_int(n as int));
        }
        s
    }
}

} // verus!
