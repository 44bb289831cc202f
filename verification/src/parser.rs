//! Day-number suggestion engine.
//!
//! It never gates archiving — it only pre-fills the day field in the
//! archive form. High confidence is a number following the keyword "day"
//! or "daily" (any ASCII case, then optional whitespace and an optional
//! `#`); low confidence is any standalone number. Numbers are runs of one
//! to six ASCII digits that end at a word boundary; a longer run is not a
//! number at all.

use vstd::prelude::*;

use crate::text::{pow10, all_digits, dec_value, digit_of, is_digit, lower, lower_char};

verus! {

/// How sure the parser is that the numbers are day numbers.
#[derive(Debug, Clone, Copy, PartialEq, Eq, Structural)]
pub enum Confidence {
    /// Keyword-adjacent number ("Day 101", "daily #7").
    High,
    /// Bare number with no keyword.
    Low,
    /// No numbers at all.
    NoMatch,
}

/// Parse outcome: every matched number, in order of appearance.
#[derive(Debug, Clone, PartialEq, Eq)]
pub struct ParseResult {
    /// Detected day numbers.
    pub days: Vec<i64>,
    /// Detection confidence.
    pub confidence: Confidence,
}

/// An ASCII word character: `[0-9A-Za-z_]`.
pub open spec fn is_word(c: char) -> bool {
    let u = c as u32;
    (48 <= u && u <= 57) || (65 <= u && u <= 90) || (97 <= u && u <= 122) || u == 95
}

/// ASCII whitespace as the pattern language uses it: `[\t\n\v\f\r ]`.
pub open spec fn is_space(c: char) -> bool {
    let u = c as u32;
    (9 <= u && u <= 13) || u == 32
}

/// Length of the run of digits (or of spaces) that starts at `j`.
pub open spec fn run_len(s: Seq<char>, j: int, digits: bool) -> nat
    decreases s.len() - j,
{
    if 0 <= j < s.len() && (if digits {
        is_digit(s[j])
    } else {
        is_space(s[j])
    }) {
        1 + run_len(s, j + 1, digits)
    } else {
        0
    }
}

/// Length of the keyword at `i`: 3 for "day", 5 for "daily" (any ASCII
/// case), 0 for neither.
pub open spec fn keyword_len(s: Seq<char>, i: int) -> int {
    if 0 <= i && i + 3 <= s.len() && lower(s[i]) == 'd' && lower(s[i + 1]) == 'a' && lower(
        s[i + 2],
    ) == 'y' {
        3
    } else if 0 <= i && i + 5 <= s.len() && lower(s[i]) == 'd' && lower(s[i + 1]) == 'a' && lower(
        s[i + 2],
    ) == 'i' && lower(s[i + 3]) == 'l' && lower(s[i + 4]) == 'y' {
        5
    } else {
        0
    }
}

/// A number of one to six digits spanning `[h, e)` that ends at a word
/// boundary.
pub open spec fn number_ends_ok(s: Seq<char>, h: int, e: int) -> bool {
    1 <= e - h <= 6 && (e == s.len() || !is_word(s[e]))
}

/// The keyword match starting at `i`, as (end, value): keyword, spaces,
/// an optional `#`, then the number.
pub open spec fn high_match_at(s: Seq<char>, i: int) -> Option<(int, int)> {
    let k = keyword_len(s, i);
    let j = i + k + run_len(s, i + k, false);
    let h = if j < s.len() && s[j] == '#' {
        j + 1
    } else {
        j
    };
    let e = h + run_len(s, h, true);
    if k > 0 && number_ends_ok(s, h, e) {
        Some((e, dec_value(s.subrange(h, e))))
    } else {
        None
    }
}

/// The bare-number match starting at `i`, as (end, value): a word boundary
/// before, the number, a word boundary after.
pub open spec fn low_match_at(s: Seq<char>, i: int) -> Option<(int, int)> {
    let e = i + run_len(s, i, true);
    if 0 <= i < s.len() && is_digit(s[i]) && (i == 0 || !is_word(s[i - 1])) && number_ends_ok(
        s,
        i,
        e,
    ) {
        Some((e, dec_value(s.subrange(i, e))))
    } else {
        None
    }
}

/// Every non-overlapping match from `from` onward, leftmost first, each
/// search resuming where the previous match ended.
pub open spec fn scan(s: Seq<char>, from: int, high: bool) -> Seq<int>
    decreases s.len() - from,
{
    if from < 0 || from >= s.len() {
        Seq::empty()
    } else {
        let m = if high {
            high_match_at(s, from)
        } else {
            low_match_at(s, from)
        };
        match m {
            Some((e, v)) => if from < e <= s.len() {
                seq![v] + scan(s, e, high)
            } else {
                Seq::empty()
            },
            None => scan(s, from + 1, high),
        }
    }
}

/// The day numbers of a parse result, as integers.
pub open spec fn days_view(v: Seq<i64>) -> Seq<int> {
    v.map_values(|x: i64| x as int)
}

/// Keyword matches win; bare numbers only count when there are none.
pub open spec fn parse_spec(s: Seq<char>) -> (Seq<int>, Confidence) {
    let high = scan(s, 0, true);
    let low = scan(s, 0, false);
    if high.len() > 0 {
        (high, Confidence::High)
    } else if low.len() > 0 {
        (low, Confidence::Low)
    } else {
        (Seq::empty(), Confidence::NoMatch)
    }
}

proof fn lemma_run_len_bound(s: Seq<char>, j: int, digits: bool)
    ensures
        0 <= j ==> j + run_len(s, j, digits) <= if j <= s.len() {
            s.len() as int
        } else {
            j
        },
    decreases s.len() - j,
{
    if 0 <= j < s.len() {
        lemma_run_len_bound(s, j + 1, digits);
    }
}

proof fn lemma_run_all(s: Seq<char>, j: int, k: int, digits: bool)
    requires
        0 <= j <= k <= j + run_len(s, j, digits),
    ensures
        run_len(s, j, digits) == (k - j) + run_len(s, k, digits),
        forall|m: int|
            j <= m < k ==> (if digits {
                is_digit(#[trigger] s[m])
            } else {
                is_space(s[m])
            }),
    decreases k - j,
{
    if j < k {
        lemma_run_all(s, j + 1, k, digits);
    }
}

fn run_char(c: char, digits: bool) -> (r: bool)
    ensures
        r == (if digits {
            is_digit(c)
        } else {
            is_space(c)
        }),
{
    let u = c as u32;
    if digits {
        48 <= u && u <= 57
    } else {
        (9 <= u && u <= 13) || u == 32
    }
}

/// Length of the run of digits (or spaces) starting at `j`.
fn run_len_exec(v: &[char], j: usize, digits: bool) -> (r: usize)
    requires
        j <= v.len(),
    ensures
        r as int == run_len(v@, j as int, digits),
        j + r <= v.len(),
{
    let mut k = j;
    proof {
        lemma_run_len_bound(v@, j as int, digits);
    }
    while k < v.len() && run_char(v[k], digits)
        invariant
            j <= k <= v.len(),
            run_len(v@, j as int, digits) == (k - j) + run_len(v@, k as int, digits),
        decreases v.len() - k,
    {
        k += 1;
    }
    k - j
}

fn is_word_exec(c: char) -> (r: bool)
    ensures
        r == is_word(c),
{
    let u = c as u32;
    (48 <= u && u <= 57) || (65 <= u && u <= 90) || (97 <= u && u <= 122) || u == 95
}

/// Value of the (at most six) digits `v[h..e]`.
fn small_value(v: &[char], h: usize, e: usize) -> (r: i64)
    requires
        h <= e <= v.len(),
        e - h <= 6,
        all_digits(v@.subrange(h as int, e as int)),
    ensures
        r as int == dec_value(v@.subrange(h as int, e as int)),
        0 <= r < 1_000_000,
{
    let mut acc: i64 = 0;
    let mut k = h;
    while k < e
        invariant
            h <= k <= e,
            e <= v.len(),
            e - h <= 6,
            all_digits(v@.subrange(h as int, e as int)),
            acc as int == dec_value(v@.subrange(h as int, k as int)),
            0 <= acc < pow10((k - h) as nat),
            pow10((k - h) as nat) <= 1_000_000,
        decreases e - k,
    {
        proof {
            assert(v@.subrange(h as int, k + 1).drop_last() == v@.subrange(h as int, k as int));
            assert(v@.subrange(h as int, e as int)[k - h] == v@[k as int]);
            assert(is_digit(v@.subrange(h as int, e as int)[k - h]));
            assert(pow10((k + 1 - h) as nat) == 10 * pow10((k - h) as nat));
            if k + 1 - h <= 6 {
                assert(pow10((k + 1 - h) as nat) <= 1_000_000) by {
                    reveal_with_fuel(pow10, 7);
                }
            }
        }
        let d = (v[k] as u32 - 48) as i64;
        acc = acc * 10 + d;
        k += 1;
    }
    acc
}

/// The keyword match at `i`, as (end, value).
fn high_match_exec(v: &[char], i: usize) -> (r: Option<(usize, i64)>)
    requires
        i < v.len(),
    ensures
        match high_match_at(v@, i as int) {
            Some((e, val)) => r matches Some((re, rv)) && re as int == e && rv as int == val,
            None => r is None,
        },
{
    let n = v.len();
    let k: usize = if n - i >= 3 && lower_char(v[i]) == 'd' && lower_char(v[i + 1]) == 'a'
        && lower_char(v[i + 2]) == 'y' {
        3
    } else if n - i >= 5 && lower_char(v[i]) == 'd' && lower_char(v[i + 1]) == 'a' && lower_char(
        v[i + 2],
    ) == 'i' && lower_char(v[i + 3]) == 'l' && lower_char(v[i + 4]) == 'y' {
        5
    } else {
        0
    };
    if k == 0 {
        return None;
    }
    let sp = run_len_exec(v, i + k, false);
    let j = i + k + sp;
    let h = if j < n && v[j] == '#' {
        j + 1
    } else {
        j
    };
    let dl = run_len_exec(v, h, true);
    let e = h + dl;
    if 1 <= dl && dl <= 6 && (e == n || !is_word_exec(v[e])) {
        proof {
            lemma_run_all(v@, h as int, e as int, true);
            assert forall|m: int| 0 <= m < e - h implies #[trigger] is_digit(
                v@.subrange(h as int, e as int)[m],
            ) by {
                assert(v@.subrange(h as int, e as int)[m] == v@[h + m]);
            }
        }
        let val = small_value(v, h, e);
        Some((e, val))
    } else {
        None
    }
}

/// The bare-number match at `i`, as (end, value).
fn low_match_exec(v: &[char], i: usize) -> (r: Option<(usize, i64)>)
    requires
        i < v.len(),
    ensures
        match low_match_at(v@, i as int) {
            Some((e, val)) => r matches Some((re, rv)) && re as int == e && rv as int == val,
            None => r is None,
        },
{
    let n = v.len();
    let u = v[i] as u32;
    if !(48 <= u && u <= 57) {
        return None;
    }
    if i > 0 && is_word_exec(v[i - 1]) {
        return None;
    }
    let dl = run_len_exec(v, i, true);
    let e = i + dl;
    if 1 <= dl && dl <= 6 && (e == n || !is_word_exec(v[e])) {
        proof {
            lemma_run_all(v@, i as int, e as int, true);
            assert forall|m: int| 0 <= m < e - i implies #[trigger] is_digit(
                v@.subrange(i as int, e as int)[m],
            ) by {
                assert(v@.subrange(i as int, e as int)[m] == v@[i + m]);
            }
        }
        let val = small_value(v, i, e);
        Some((e, val))
    } else {
        None
    }
}

/// All matches of one kind, in order.
fn scan_exec(v: &[char], high: bool) -> (r: Vec<i64>)
    ensures
        days_view(r@) == scan(v@, 0, high),
{
    let mut days: Vec<i64> = Vec::new();
    let mut i: usize = 0;
    while i < v.len()
        invariant
            0 <= i <= v.len(),
            days_view(days@) + scan(v@, i as int, high) == scan(v@, 0, high),
        decreases v.len() - i,
    {
        let m = if high {
            high_match_exec(v, i)
        } else {
            low_match_exec(v, i)
        };
        match m {
            Some((e, val)) => {
                proof {
                    lemma_run_len_bound(v@, i as int, true);
                    let k = keyword_len(v@, i as int);
                    lemma_run_len_bound(v@, i + k, false);
                    let j = i + k + run_len(v@, i + k, false);
                    let hh = if j < v@.len() && v@[j] == '#' {
                        j + 1
                    } else {
                        j
                    };
                    lemma_run_len_bound(v@, hh, true);
                    assert(e > i);
                    assert(e <= v@.len());
                    assert(days_view(days@.push(val)) == days_view(days@) + seq![val as int]);
                }
                days.push(val);
                i = e;
            },
            None => {
                i += 1;
            },
        }
    }
    days
}

/// Extracts candidate day numbers from message content.
pub fn parse_day_numbers(content: &str) -> (r: ParseResult)
    ensures
        (days_view(r.days@), r.confidence) == parse_spec(content@),
{
    let v = crate::text::chars_of(content);
    let high = scan_exec(&v, true);
    if high.len() > 0 {
        return ParseResult { days: high, confidence: Confidence::High };
    }
    let low = scan_exec(&v, false);
    if low.len() == 0 {
        ParseResult { days: Vec::new(), confidence: Confidence::NoMatch }
    } else {
        ParseResult { days: low, confidence: Confidence::Low }
    }
}

proof fn lemma_run_len_block(s: Seq<char>, j: int, m: int, digits: bool)
    requires
        0 <= j,
        0 <= m,
        j + m <= s.len(),
        forall|k: int| j <= k < j + m ==> (if digits {
            is_digit(#[trigger] s[k])
        } else {
            is_space(s[k])
        }),
        j + m == s.len() || !(if digits {
            is_digit(s[j + m])
        } else {
            is_space(s[j + m])
        }),
    ensures
        run_len(s, j, digits) == m,
    decreases m,
{
    if m > 0 {
        lemma_run_len_block(s, j + 1, m - 1, digits);
    }
}

/// A keyword number, as the pattern `(?i)(?:day|daily)\s*#?(\d{1,6})\b`
/// reads it: a text that opens with `day` or `daily` in any ASCII case,
/// then ASCII whitespace (code points 9–13 and 32), an optional `#`, and
/// the digits (48–57) there, is a keyword match for that number exactly
/// when there are at most six digits and they are followed by the end of
/// the text or by a character that is not an ASCII letter (65–90, 97–122)
/// or underscore (95): `Day 12: sunset`, `Day 12.` and `day 12` all match
/// 12; `Day 12x` and `Day 1234567` match nothing. The match makes the parse a
/// high-confidence one led by that number, and the suggestion that number
/// when no other keyword number follows.
pub proof fn lemma_keyword_number(w: Seq<char>, sp: Seq<char>, hash: Seq<char>, ds: Seq<char>, t: Seq<char>)
    requires
        (w.len() == 3 && forall|k: int| 0 <= k < 3 ==> #[trigger] w[k] == seq!['d', 'a', 'y'][k] || w[k]
            == seq!['D', 'A', 'Y'][k]) || (w.len() == 5 && forall|k: int| 0 <= k < 5 ==> #[trigger] w[k]
            == seq!['d', 'a', 'i', 'l', 'y'][k] || w[k] == seq!['D', 'A', 'I', 'L', 'Y'][k]),
        forall|k: int| 0 <= k < sp.len() ==> (#[trigger] sp[k] as u32 == 32 || (9 <= sp[k] as u32 && sp[k] as u32 <= 13)),
        hash == Seq::<char>::empty() || hash == seq!['#'],
        1 <= ds.len(),
        forall|k: int| 0 <= k < ds.len() ==> 48 <= #[trigger] ds[k] as u32 && ds[k] as u32 <= 57,
        t.len() == 0 || !(48 <= t[0] as u32 && t[0] as u32 <= 57),
    ensures
        ({
            let s = w + sp + hash + ds + t;
            let e = (w.len() + sp.len() + hash.len() + ds.len()) as int;
            let u = t[0] as u32;
            let ends = t.len() == 0 || !((97 <= u && u <= 122) || (65 <= u && u <= 90) || u == 95);
            &&& ends && ds.len() <= 6 ==> high_match_at(s, 0) == Some((e, dec_value(ds)))
            &&& ends && ds.len() <= 6 ==> parse_spec(s).1 == Confidence::High && parse_spec(s).0[0]
                == dec_value(ds)
            &&& ends && ds.len() <= 6 && scan(s, e, true).len() == 0 ==> suggested_spec(s) == Some(
                dec_value(ds),
            )
            &&& !ends || ds.len() > 6 ==> high_match_at(s, 0) is None
        }),
{
    let s = w + sp + hash + ds + t;
    let kw = w.len() as int;
    let j = kw + sp.len();
    let h = j + hash.len();
    let e = h + ds.len();
    assert(s.subrange(h, e) =~= ds);
    // The keyword.
    if w.len() == 3 {
        assert(w[0] == seq!['d', 'a', 'y'][0] || w[0] == seq!['D', 'A', 'Y'][0]);
        assert(w[1] == seq!['d', 'a', 'y'][1] || w[1] == seq!['D', 'A', 'Y'][1]);
        assert(w[2] == seq!['d', 'a', 'y'][2] || w[2] == seq!['D', 'A', 'Y'][2]);
        assert(s[0] == w[0] && s[1] == w[1] && s[2] == w[2]);
        assert(lower(s[0]) == 'd' && lower(s[1]) == 'a' && lower(s[2]) == 'y');
        assert(keyword_len(s, 0) == 3);
    } else {
        assert(w[0] == seq!['d', 'a', 'i', 'l', 'y'][0] || w[0] == seq!['D', 'A', 'I', 'L', 'Y'][0]);
        assert(w[1] == seq!['d', 'a', 'i', 'l', 'y'][1] || w[1] == seq!['D', 'A', 'I', 'L', 'Y'][1]);
        assert(w[2] == seq!['d', 'a', 'i', 'l', 'y'][2] || w[2] == seq!['D', 'A', 'I', 'L', 'Y'][2]);
        assert(w[3] == seq!['d', 'a', 'i', 'l', 'y'][3] || w[3] == seq!['D', 'A', 'I', 'L', 'Y'][3]);
        assert(w[4] == seq!['d', 'a', 'i', 'l', 'y'][4] || w[4] == seq!['D', 'A', 'I', 'L', 'Y'][4]);
        assert(s[0] == w[0] && s[1] == w[1] && s[2] == w[2] && s[3] == w[3] && s[4] == w[4]);
        assert(lower(s[2]) == 'i');
        assert(lower(s[0]) == 'd' && lower(s[1]) == 'a' && lower(s[3]) == 'l' && lower(s[4]) == 'y');
        assert(keyword_len(s, 0) == 5);
    }
    // The whitespace.
    assert forall|k: int| kw <= k < j implies is_space(#[trigger] s[k]) by {
        assert(s[k] == sp[k - kw]);
    }
    if j < s.len() {
        if hash.len() == 1 {
            assert(s[j] == '#');
        } else {
            assert(s[j] == ds[0]);
        }
    }
    lemma_run_len_block(s, kw, sp.len() as int, false);
    if hash.len() == 1 {
        assert(s[j] == '#');
    } else if j < s.len() {
        assert(s[j] == ds[0]);
        assert(s[j] != '#');
    }
    // The digits.
    assert forall|k: int| h <= k < e implies is_digit(#[trigger] s[k]) by {
        assert(s[k] == ds[k - h]);
    }
    if e < s.len() {
        assert(s[e] == t[0]);
        assert(!is_digit(s[e]));
    }
    lemma_run_len_block(s, h, ds.len() as int, true);
    if t.len() > 0 {
        assert(s[e] == t[0]);
    }
    if high_match_at(s, 0) is Some {
        assert(s.len() > 0);
        assert(scan(s, 0, true) == seq![dec_value(ds)] + scan(s, e, true));
    }
}

/// The suggestion: the keyword-matched number when there is exactly one.
pub open spec fn suggested_spec(s: Seq<char>) -> Option<int> {
    let (days, conf) = parse_spec(s);
    if conf == Confidence::High && days.len() == 1 {
        Some(days[0])
    } else {
        None
    }
}

/// The single day to pre-fill in the archive form, if the parser found a
/// confident, unambiguous one.
pub fn suggested_day(content: &str) -> (r: Option<i64>)
    ensures
        match suggested_spec(content@) {
            Some(d) => r matches Some(x) && x as int == d,
            None => r is None,
        },
{
    let parsed = parse_day_numbers(content);
    if parsed.confidence == Confidence::High && parsed.days.len() == 1 {
        Some(parsed.days[0])
    } else {
        None
    }
}

} // verus!
