//! Character-level text helpers with exact specifications.
//!
//! Strings are reasoned about through their `Seq<char>` view; every helper
//! here states its result over that view. Decimal rendering and parsing,
//! Unicode-whitespace trimming and ASCII case mapping follow the behaviour
//! of the corresponding std operations.

use vstd::prelude::*;
use vstd::string::*;

verus! {

// ---------------------------------------------------------------------
// Specifications
// ---------------------------------------------------------------------

/// An ASCII decimal digit.
pub open spec fn is_digit(c: char) -> bool {
    48 <= (c as u32) && (c as u32) <= 57
}

/// Numeric value of an ASCII digit.
pub open spec fn digit_of(c: char) -> int {
    (c as u32) as int - 48
}

/// The ASCII digit for `0 <= d < 10`.
pub open spec fn digit_char(d: int) -> char {
    ((d + 48) as u32) as char
}

/// Decimal rendering of a natural number (no leading zeros).
pub open spec fn nat_dec(n: nat) -> Seq<char>
    decreases n,
{
    if n < 10 {
        seq![digit_char(n as int)]
    } else {
        nat_dec(n / 10).push(digit_char((n % 10) as int))
    }
}

/// Decimal rendering of an integer, with a leading `-` when negative.
pub open spec fn int_dec(i: int) -> Seq<char> {
    if i < 0 {
        seq!['-'] + nat_dec((-i) as nat)
    } else {
        nat_dec(i as nat)
    }
}

/// Every character is an ASCII digit.
pub open spec fn all_digits(s: Seq<char>) -> bool {
    forall|i: int| 0 <= i < s.len() ==> #[trigger] is_digit(s[i])
}

/// Value of a run of decimal digits (most significant first).
pub open spec fn dec_value(s: Seq<char>) -> int
    decreases s.len(),
{
    if s.len() == 0 {
        0
    } else {
        dec_value(s.drop_last()) * 10 + digit_of(s.last())
    }
}

/// `u64` parsing as std's `str::parse::<u64>` does it: an optional `+`, then
/// one or more ASCII digits whose value fits.
pub open spec fn parse_u64_spec(s: Seq<char>) -> Option<u64> {
    let d = if s.len() > 0 && s[0] == '+' {
        s.drop_first()
    } else {
        s
    };
    if d.len() > 0 && all_digits(d) && dec_value(d) <= u64::MAX {
        Some(dec_value(d) as u64)
    } else {
        None
    }
}

/// `i64` parsing as std's `str::parse::<i64>` does it: an optional sign,
/// then one or more ASCII digits whose signed value fits.
pub open spec fn parse_i64_spec(s: Seq<char>) -> Option<i64> {
    if s.len() > 0 && s[0] == '-' {
        let d = s.drop_first();
        if d.len() > 0 && all_digits(d) && dec_value(d) <= 0x8000_0000_0000_0000 {
            Some((-dec_value(d)) as i64)
        } else {
            None
        }
    } else {
        let d = if s.len() > 0 && s[0] == '+' {
            s.drop_first()
        } else {
            s
        };
        if d.len() > 0 && all_digits(d) && dec_value(d) <= i64::MAX {
            Some(dec_value(d) as i64)
        } else {
            None
        }
    }
}

/// Unicode `White_Space` (what `char::is_whitespace` tests).
pub open spec fn is_ws(c: char) -> bool {
    let u = c as u32;
    (9 <= u && u <= 13) || u == 32 || u == 0x85 || u == 0xA0 || u == 0x1680 || (0x2000 <= u
        && u <= 0x200A) || u == 0x2028 || u == 0x2029 || u == 0x202F || u == 0x205F || u == 0x3000
}

/// Number of leading whitespace characters.
pub open spec fn lead_ws(s: Seq<char>) -> nat
    decreases s.len(),
{
    if s.len() > 0 && is_ws(s[0]) {
        1 + lead_ws(s.drop_first())
    } else {
        0
    }
}

/// Number of trailing whitespace characters.
pub open spec fn trail_ws(s: Seq<char>) -> nat
    decreases s.len(),
{
    if s.len() > 0 && is_ws(s.last()) {
        1 + trail_ws(s.drop_last())
    } else {
        0
    }
}

/// `str::trim`: leading and trailing Unicode whitespace removed.
pub open spec fn trim(s: Seq<char>) -> Seq<char> {
    let t = s.skip(lead_ws(s) as int);
    t.take(t.len() - trail_ws(t))
}

/// `char::to_ascii_lowercase`.
pub open spec fn lower(c: char) -> char {
    if 65 <= (c as u32) && (c as u32) <= 90 {
        ((c as u32) + 32) as char
    } else {
        c
    }
}

/// `char::to_ascii_uppercase`.
pub open spec fn upper(c: char) -> char {
    if 97 <= (c as u32) && (c as u32) <= 122 {
        ((c as u32) - 32) as char
    } else {
        c
    }
}

/// `str::to_ascii_lowercase`.
pub open spec fn lower_seq(s: Seq<char>) -> Seq<char> {
    s.map_values(|c: char| lower(c))
}

/// `str::to_ascii_uppercase`.
pub open spec fn upper_seq(s: Seq<char>) -> Seq<char> {
    s.map_values(|c: char| upper(c))
}

/// `p` is a prefix of `s`.
pub open spec fn has_prefix(s: Seq<char>, p: Seq<char>) -> bool {
    p.len() <= s.len() && s.take(p.len() as int) == p
}

/// `p` is a suffix of `s`.
pub open spec fn has_suffix(s: Seq<char>, p: Seq<char>) -> bool {
    p.len() <= s.len() && s.skip(s.len() - p.len()) == p
}

// ---------------------------------------------------------------------
// Lemmas
// ---------------------------------------------------------------------

/// An ASCII digit character has the value it was made from.
pub proof fn lemma_digit_char(d: int)
    requires
        0 <= d < 10,
    ensures
        is_digit(digit_char(d)),
        digit_of(digit_char(d)) == d,
{
    let u = (d + 48) as u32;
    assert((u as char) as u32 == u);
}

/// A decimal rendering is all digits, non-empty, and evaluates back.
pub proof fn lemma_nat_dec(n: nat)
    ensures
        all_digits(nat_dec(n)),
        nat_dec(n).len() > 0,
        dec_value(nat_dec(n)) == n,
    decreases n,
{
    lemma_digit_char((n % 10) as int);
    if n < 10 {
        let s = nat_dec(n);
        assert(s.drop_last().len() == 0);
        assert(dec_value(s.drop_last()) == 0);
        assert(n % 10 == n);
    } else {
        lemma_nat_dec(n / 10);
        let s = nat_dec(n);
        assert(s.drop_last() == nat_dec(n / 10));
        assert(s.last() == digit_char((n % 10) as int));
        assert((n / 10) * 10 + n % 10 == n) by (nonlinear_arith);
        assert forall|i: int| 0 <= i < s.len() implies #[trigger] is_digit(s[i]) by {
            if i < s.len() - 1 {
                assert(s[i] == nat_dec(n / 10)[i]);
            }
        }
    }
}

/// Digit values are non-negative.
pub proof fn lemma_dec_value_nonneg(s: Seq<char>)
    requires
        all_digits(s),
    ensures
        dec_value(s) >= 0,
    decreases s.len(),
{
    if s.len() > 0 {
        assert(is_digit(s[s.len() - 1]));
        assert(all_digits(s.drop_last())) by {
            assert forall|i: int| 0 <= i < s.drop_last().len() implies #[trigger] is_digit(
                s.drop_last()[i],
            ) by {
                assert(is_digit(s[i]));
            }
        }
        lemma_dec_value_nonneg(s.drop_last());
    }
}

/// The value of a prefix never exceeds the value of the whole digit run.
pub proof fn lemma_dec_value_prefix(s: Seq<char>, k: int)
    requires
        all_digits(s),
        0 <= k <= s.len(),
    ensures
        dec_value(s.take(k)) <= dec_value(s),
    decreases s.len(),
{
    if k < s.len() {
        let d = s.drop_last();
        assert(all_digits(d)) by {
            assert forall|i: int| 0 <= i < d.len() implies #[trigger] is_digit(d[i]) by {
                assert(is_digit(s[i]));
            }
        }
        lemma_dec_value_prefix(d, k);
        assert(d.take(k) == s.take(k));
        lemma_dec_value_nonneg(d);
        assert(is_digit(s[s.len() - 1]));
    } else {
        assert(s.take(k) == s);
    }
}

/// Parsing the rendering of an `i64` gives it back.
pub proof fn lemma_parse_i64_int_dec(x: i64)
    ensures
        parse_i64_spec(int_dec(x as int)) == Some(x),
{
    if x < 0 {
        let m = (-(x as int)) as nat;
        lemma_nat_dec(m);
        let s = int_dec(x as int);
        assert(s.drop_first() == nat_dec(m));
    } else {
        lemma_nat_dec(x as nat);
        let s = nat_dec(x as nat);
        if s[0] == '+' {
            assert(is_digit(s[0]));
        }
        if s[0] == '-' {
            assert(is_digit(s[0]));
        }
    }
}

// ---------------------------------------------------------------------
// Executable helpers
// ---------------------------------------------------------------------

/// Appends one character to a `String` (std `String::push`).
#[verifier::external_body]
pub(crate) fn push_char(s: &mut String, c: char)
    ensures
        final(s)@ == old(s)@.push(c),
{
    s.push(c);
}

/// Appends a string slice.
pub fn push_str(s: &mut String, t: &str)
    ensures
        final(s)@ == old(s)@ + t@,
{
    s.append(t);
}

/// The characters of `s`, in order.
pub fn chars_of(s: &str) -> (v: Vec<char>)
    ensures
        v@ == s@,
{
    let mut v: Vec<char> = Vec::new();
    for c in it: s.chars()
        invariant
            v@ == it.seq().take(it.index()),
            it.seq() == s@,
    {
        v.push(c);
    }
    v
}

/// Appends every character of `v`.
pub fn push_chars(s: &mut String, v: &[char])
    ensures
        final(s)@ == old(s)@ + v@,
{
    let mut i: usize = 0;
    while i < v.len()
        invariant
            0 <= i <= v.len(),
            s@ == old(s)@ + v@.take(i as int),
        decreases v.len() - i,
    {
        push_char(s, v[i]);
        i += 1;
        assert(v@.take(i as int) == v@.take(i - 1).push(v@[i - 1]));
    }
    assert(v@.take(v.len() as int) == v@);
}

/// A `String` holding exactly the characters of `v`.
pub fn string_of(v: &[char]) -> (s: String)
    ensures
        s@ == v@,
{
    let mut s = String::new();
    push_chars(&mut s, v);
    s
}

/// Character-wise equality of two string slices.
pub fn str_eq(a: &str, b: &str) -> (r: bool)
    ensures
        r == (a@ == b@),
{
    let x = chars_of(a);
    let y = chars_of(b);
    chars_eq(&x, &y)
}

/// Equality of two character slices.
pub fn chars_eq(x: &[char], y: &[char]) -> (r: bool)
    ensures
        r == (x@ == y@),
{
    if x.len() != y.len() {
        return false;
    }
    let mut i: usize = 0;
    while i < x.len()
        invariant
            x.len() == y.len(),
            0 <= i <= x.len(),
            forall|k: int| 0 <= k < i ==> x@[k] == y@[k],
        decreases x.len() - i,
    {
        if x[i] != y[i] {
            return false;
        }
        i += 1;
    }
    assert(x@ =~= y@);
    true
}

/// Appends the decimal rendering of `n`.
pub fn push_u64_dec(s: &mut String, n: u64)
    ensures
        final(s)@ == old(s)@ + nat_dec(n as nat),
    decreases n,
{
    if n >= 10 {
        push_u64_dec(s, n / 10);
    }
    let d: u8 = (n % 10) as u8 + 48;
    let c = d as char;
    push_char(s, c);
    if n >= 10 {
        assert(nat_dec(n as nat) == nat_dec((n / 10) as nat).push(digit_char((n % 10) as int)));
    }
}

/// Appends the decimal rendering of `n` (with `-` when negative).
pub fn push_i64_dec(s: &mut String, n: i64)
    ensures
        final(s)@ == old(s)@ + int_dec(n as int),
{
    if n < 0 {
        push_char(s, '-');
        let m: u64 = (-(n as i128)) as u64;
        push_u64_dec(s, m);
        assert(old(s)@.push('-') + nat_dec(m as nat) == old(s)@ + (seq!['-'] + nat_dec(m as nat)));
    } else {
        push_u64_dec(s, n as u64);
    }
}

/// Decimal rendering of `n` as a new `String` (`n.to_string()`).
pub fn u64_to_string(n: u64) -> (s: String)
    ensures
        s@ == nat_dec(n as nat),
{
    let mut s = String::new();
    push_u64_dec(&mut s, n);
    s
}

/// Decimal rendering of `n` as a new `String` (`n.to_string()`).
pub fn i64_to_string(n: i64) -> (s: String)
    ensures
        s@ == int_dec(n as int),
{
    let mut s = String::new();
    push_i64_dec(&mut s, n);
    s
}


/// Value of the digit run `v[start..end]`, or `None` when a character is not
/// an ASCII digit or the value exceeds `limit`.
fn digits_value(v: &[char], start: usize, limit: u64) -> (r: Option<u64>)
    requires
        start <= v.len(),
        limit >= 9,
    ensures
        r is Some <==> (all_digits(v@.skip(start as int)) && dec_value(v@.skip(start as int))
            <= limit),
        r matches Some(m) ==> m as int == dec_value(v@.skip(start as int)) && m <= limit,
{
    let ghost d = v@.skip(start as int);
    let mut acc: u64 = 0;
    let mut i: usize = start;
    while i < v.len()
        invariant
            start <= i <= v.len(),
            d == v@.skip(start as int),
            all_digits(d.take(i - start)),
            acc as int == dec_value(d.take(i - start)),
            acc <= limit,
            limit >= 9,
        decreases v.len() - i,
    {
        let c = v[i];
        let cu = c as u32;
        let ghost k = (i - start) as int;
        assert(d.take(k + 1).drop_last() == d.take(k));
        assert(d[k] == c);
        if !(48 <= cu && cu <= 57) {
            assert(!is_digit(d[k]));
            return None;
        }
        let dv = (cu - 48) as u64;
        if acc > (limit - dv) / 10 {
            proof {
                assert(all_digits(d.take(k + 1))) by {
                    assert forall|j: int| 0 <= j < k + 1 implies #[trigger] is_digit(
                        d.take(k + 1)[j],
                    ) by {
                        if j < k {
                            assert(d.take(k + 1)[j] == d.take(k)[j]);
                        }
                    }
                }
                assert(dec_value(d.take(k + 1)) == acc * 10 + dv);
                assert(acc * 10 + dv > limit) by (nonlinear_arith)
                    requires
                        acc > (limit - dv) / 10,
                        dv <= 9,
                        dv <= limit,
                ;
                if all_digits(d) {
                    lemma_dec_value_prefix(d, k + 1);
                }
            }
            return None;
        }
        proof {
            assert(acc * 10 + dv <= limit) by (nonlinear_arith)
                requires
                    acc <= (limit - dv) / 10,
                    dv <= 9,
            ;
        }
        acc = acc * 10 + dv;
        i += 1;
        proof {
            assert forall|j: int| 0 <= j < k + 1 implies #[trigger] is_digit(d.take(k + 1)[j]) by {
                if j < k {
                    assert(d.take(k + 1)[j] == d.take(k)[j]);
                }
            }
        }
    }
    assert(d.take(v.len() - start) == d);
    Some(acc)
}

/// `s.parse::<u64>().ok()`.
pub fn parse_u64(s: &str) -> (r: Option<u64>)
    ensures
        r == parse_u64_spec(s@),
{
    let v = chars_of(s);
    let start: usize = if v.len() > 0 && v[0] == '+' {
        1
    } else {
        0
    };
    assert(v@.skip(start as int) == (if v@.len() > 0 && v@[0] == '+' {
        v@.drop_first()
    } else {
        v@
    }));
    if start == v.len() {
        return None;
    }
    digits_value(&v, start, u64::MAX)
}

/// `s.parse::<i64>().ok()`.
pub fn parse_i64(s: &str) -> (r: Option<i64>)
    ensures
        r == parse_i64_spec(s@),
{
    let v = chars_of(s);
    if v.len() > 0 && v[0] == '-' {
        assert(v@.skip(1) == v@.drop_first());
        if v.len() == 1 {
            return None;
        }
        match digits_value(&v, 1, 0x8000_0000_0000_0000u64) {
            Some(m) => {
                let r: i64 = (-(m as i128)) as i64;
                Some(r)
            },
            None => None,
        }
    } else {
        let start: usize = if v.len() > 0 && v[0] == '+' {
            1
        } else {
            0
        };
        assert(v@.skip(start as int) == (if v@.len() > 0 && v@[0] == '+' {
            v@.drop_first()
        } else {
            v@
        }));
        if start == v.len() {
            return None;
        }
        match digits_value(&v, start, 0x7fff_ffff_ffff_ffffu64) {
            Some(m) => Some(m as i64),
            None => None,
        }
    }
}


/// `char::is_whitespace`.
pub fn char_is_ws(c: char) -> (r: bool)
    ensures
        r == is_ws(c),
{
    let u = c as u32;
    (9 <= u && u <= 13) || u == 32 || u == 0x85 || u == 0xA0 || u == 0x1680 || (0x2000 <= u && u
        <= 0x200A) || u == 0x2028 || u == 0x2029 || u == 0x202F || u == 0x205F || u == 0x3000
}

proof fn lemma_lead_ws_step(s: Seq<char>, i: int)
    requires
        0 <= i < s.len(),
        is_ws(s[i]),
    ensures
        lead_ws(s.skip(i)) == 1 + lead_ws(s.skip(i + 1)),
{
    assert(s.skip(i).drop_first() == s.skip(i + 1));
}

proof fn lemma_trail_ws_step(s: Seq<char>, j: int)
    requires
        0 < j <= s.len(),
        is_ws(s[j - 1]),
    ensures
        trail_ws(s.take(j)) == 1 + trail_ws(s.take(j - 1)),
{
    assert(s.take(j).drop_last() == s.take(j - 1));
}

/// `str::trim`, over characters.
pub fn trim_chars(v: &[char]) -> (r: Vec<char>)
    ensures
        r@ == trim(v@),
{
    let mut i: usize = 0;
    assert(v@.skip(0) == v@);
    while i < v.len() && char_is_ws(v[i])
        invariant
            0 <= i <= v.len(),
            lead_ws(v@) == i + lead_ws(v@.skip(i as int)),
        decreases v.len() - i,
    {
        proof {
            lemma_lead_ws_step(v@, i as int);
        }
        i += 1;
    }
    assert(lead_ws(v@.skip(i as int)) == 0);
    let ghost t = v@.skip(i as int);
    let mut j: usize = v.len();
    assert(t.take(j - i) == t);
    while j > i && char_is_ws(v[j - 1])
        invariant
            i <= j <= v.len(),
            t == v@.skip(i as int),
            trail_ws(t) == (v.len() - j) + trail_ws(t.take(j - i)),
        decreases j,
    {
        proof {
            assert(t[(j - i) - 1] == v@[j - 1]);
            lemma_trail_ws_step(t, (j - i) as int);
        }
        j -= 1;
    }
    assert(trail_ws(t.take(j - i)) == 0);
    assert(t.take(j - i) == t.take(t.len() - trail_ws(t)));
    let mut r: Vec<char> = Vec::new();
    let mut k: usize = i;
    while k < j
        invariant
            i <= k <= j,
            j <= v.len(),
            r@ == v@.subrange(i as int, k as int),
        decreases j - k,
    {
        r.push(v[k]);
        k += 1;
        assert(r@ == v@.subrange(i as int, k as int));
    }
    assert(r@ == t.take(j - i));
    r
}

/// `s.trim()` as characters.
pub fn trim_str(s: &str) -> (r: Vec<char>)
    ensures
        r@ == trim(s@),
{
    let v = chars_of(s);
    trim_chars(&v)
}

/// `char::to_ascii_lowercase`.
pub fn lower_char(c: char) -> (r: char)
    ensures
        r == lower(c),
{
    let u = c as u32;
    if 65 <= u && u <= 90 {
        ((u + 32) as u8) as char
    } else {
        c
    }
}

/// `char::to_ascii_uppercase`.
pub fn upper_char(c: char) -> (r: char)
    ensures
        r == upper(c),
{
    let u = c as u32;
    if 97 <= u && u <= 122 {
        ((u - 32) as u8) as char
    } else {
        c
    }
}

/// `to_ascii_lowercase`, over characters.
pub fn lower_chars(v: &[char]) -> (r: Vec<char>)
    ensures
        r@ == lower_seq(v@),
{
    let mut r: Vec<char> = Vec::new();
    let mut i: usize = 0;
    while i < v.len()
        invariant
            0 <= i <= v.len(),
            r@ == lower_seq(v@.take(i as int)),
        decreases v.len() - i,
    {
        r.push(lower_char(v[i]));
        i += 1;
        assert(r@ =~= lower_seq(v@.take(i as int)));
    }
    assert(v@.take(v.len() as int) == v@);
    r
}

/// `to_ascii_uppercase`, over characters.
pub fn upper_chars(v: &[char]) -> (r: Vec<char>)
    ensures
        r@ == upper_seq(v@),
{
    let mut r: Vec<char> = Vec::new();
    let mut i: usize = 0;
    while i < v.len()
        invariant
            0 <= i <= v.len(),
            r@ == upper_seq(v@.take(i as int)),
        decreases v.len() - i,
    {
        r.push(upper_char(v[i]));
        i += 1;
        assert(r@ =~= upper_seq(v@.take(i as int)));
    }
    assert(v@.take(v.len() as int) == v@);
    r
}

/// `s.starts_with(p)`, over characters.
pub fn chars_start_with(v: &[char], p: &[char]) -> (r: bool)
    ensures
        r == has_prefix(v@, p@),
{
    if p.len() > v.len() {
        return false;
    }
    let mut i: usize = 0;
    while i < p.len()
        invariant
            p.len() <= v.len(),
            0 <= i <= p.len(),
            forall|k: int| 0 <= k < i ==> v@[k] == p@[k],
        decreases p.len() - i,
    {
        if v[i] != p[i] {
            assert(v@.take(p.len() as int)[i as int] != p@[i as int]);
            return false;
        }
        i += 1;
    }
    assert(v@.take(p.len() as int) =~= p@);
    true
}

/// `s.ends_with(p)`, over characters.
pub fn chars_end_with(v: &[char], p: &[char]) -> (r: bool)
    ensures
        r == has_suffix(v@, p@),
{
    if p.len() > v.len() {
        return false;
    }
    let off = v.len() - p.len();
    let mut i: usize = 0;
    while i < p.len()
        invariant
            p.len() <= v.len(),
            off == v.len() - p.len(),
            0 <= i <= p.len(),
            forall|k: int| 0 <= k < i ==> v@[off + k] == p@[k],
        decreases p.len() - i,
    {
        if v[off + i] != p[i] {
            assert(v@.skip(off as int)[i as int] != p@[i as int]);
            return false;
        }
        i += 1;
    }
    assert(v@.skip(off as int) =~= p@);
    true
}

/// `s.starts_with(p)` for string slices.
pub fn str_starts_with(s: &str, p: &str) -> (r: bool)
    ensures
        r == has_prefix(s@, p@),
{
    let v = chars_of(s);
    let w = chars_of(p);
    chars_start_with(&v, &w)
}

/// The characters of `v[from..to]`.
pub fn slice_chars(v: &[char], from: usize, to: usize) -> (r: Vec<char>)
    requires
        from <= to <= v.len(),
    ensures
        r@ == v@.subrange(from as int, to as int),
{
    let mut r: Vec<char> = Vec::new();
    let mut k: usize = from;
    while k < to
        invariant
            from <= k <= to,
            to <= v.len(),
            r@ == v@.subrange(from as int, k as int),
        decreases to - k,
    {
        r.push(v[k]);
        k += 1;
        assert(r@ == v@.subrange(from as int, k as int));
    }
    r
}


/// `str::replace` with a non-empty pattern: every non-overlapping occurrence
/// of `pat`, scanning left to right, replaced by `rep`.
pub open spec fn replace_all(s: Seq<char>, pat: Seq<char>, rep: Seq<char>) -> Seq<char>
    decreases s.len(),
{
    if pat.len() == 0 || s.len() < pat.len() {
        s
    } else if s.take(pat.len() as int) == pat {
        rep + replace_all(s.skip(pat.len() as int), pat, rep)
    } else {
        seq![s[0]] + replace_all(s.drop_first(), pat, rep)
    }
}

/// Whether `pat` occurs in `v` at index `i`.
pub fn occurs_at(v: &[char], i: usize, pat: &[char]) -> (r: bool)
    requires
        i <= v.len(),
    ensures
        r == (pat.len() <= v.len() - i && v@.skip(i as int).take(pat.len() as int) == pat@),
{
    if pat.len() > v.len() - i {
        return false;
    }
    let mut k: usize = 0;
    while k < pat.len()
        invariant
            i <= v.len(),
            pat.len() <= v.len() - i,
            0 <= k <= pat.len(),
            forall|j: int| 0 <= j < k ==> v@[i + j] == pat@[j],
        decreases pat.len() - k,
    {
        if v[i + k] != pat[k] {
            assert(v@.skip(i as int).take(pat.len() as int)[k as int] != pat@[k as int]);
            return false;
        }
        k += 1;
    }
    assert(v@.skip(i as int).take(pat.len() as int) =~= pat@);
    true
}

/// `str::replace` over characters (non-empty pattern).
pub fn replace_chars(v: &[char], pat: &[char], rep: &[char]) -> (r: Vec<char>)
    requires
        pat.len() > 0,
    ensures
        r@ == replace_all(v@, pat@, rep@),
{
    let mut out: Vec<char> = Vec::new();
    let mut i: usize = 0;
    assert(v@.skip(0) == v@);
    while i < v.len()
        invariant
            0 <= i <= v.len(),
            pat.len() > 0,
            out@ + replace_all(v@.skip(i as int), pat@, rep@) == replace_all(v@, pat@, rep@),
        decreases v.len() - i,
    {
        let ghost rest = v@.skip(i as int);
        if occurs_at(v, i, pat) {
            let mut k: usize = 0;
            let ghost out0 = out@;
            while k < rep.len()
                invariant
                    0 <= k <= rep.len(),
                    out@ == out0 + rep@.take(k as int),
                decreases rep.len() - k,
            {
                out.push(rep[k]);
                k += 1;
                assert(out@ == out0 + rep@.take(k as int));
            }
            assert(rep@.take(rep.len() as int) == rep@);
            assert(rest.skip(pat.len() as int) == v@.skip(i + pat.len()));
            assert(out0 + (rep@ + replace_all(rest.skip(pat.len() as int), pat@, rep@)) == out@
                + replace_all(v@.skip(i + pat.len()), pat@, rep@));
            i = i + pat.len();
        } else {
            let ghost out0 = out@;
            out.push(v[i]);
            assert(rest.drop_first() == v@.skip(i + 1));
            proof {
                if rest.len() < pat@.len() {
                    assert(replace_all(rest, pat@, rep@) == rest);
                    assert(rest == seq![rest[0]] + rest.drop_first());
                    assert(replace_all(rest.drop_first(), pat@, rep@) == rest.drop_first());
                }
            }
            assert(out0 + (seq![v@[i as int]] + replace_all(rest.drop_first(), pat@, rep@)) == out@
                + replace_all(v@.skip(i + 1), pat@, rep@));
            i = i + 1;
        }
    }
    assert(v@.skip(v.len() as int).len() == 0);
    out
}

/// Index of the first `c` in `s` at or after `i`, or `s.len()`.
pub open spec fn first_at(s: Seq<char>, c: char, i: int) -> int
    decreases s.len() - i,
{
    if i >= s.len() || i < 0 {
        s.len() as int
    } else if s[i] == c {
        i
    } else {
        first_at(s, c, i + 1)
    }
}

/// Index of the first `a` or `b` in `s` at or after `i`, or `s.len()`.
pub open spec fn first_of_at(s: Seq<char>, a: char, b: char, i: int) -> int
    decreases s.len() - i,
{
    if i >= s.len() || i < 0 {
        s.len() as int
    } else if s[i] == a || s[i] == b {
        i
    } else {
        first_of_at(s, a, b, i + 1)
    }
}

/// Index of the leftmost occurrence of `pat` in `s` starting at or after
/// `i`, or `s.len()` when there is none.
pub open spec fn find_from(s: Seq<char>, pat: Seq<char>, i: int) -> int
    decreases s.len() - i,
{
    if i < 0 || i >= s.len() || i + pat.len() > s.len() {
        s.len() as int
    } else if s.subrange(i, i + pat.len()) == pat {
        i
    } else {
        find_from(s, pat, i + 1)
    }
}

/// Index of the last `c` among the first `n` characters of `s`, or `-1`.
pub open spec fn last_at(s: Seq<char>, c: char, n: int) -> int
    decreases n,
{
    if n <= 0 {
        -1
    } else if s[n - 1] == c {
        n - 1
    } else {
        last_at(s, c, n - 1)
    }
}

/// `first_at` answers an index from `i` to the end, holding `c` when
/// inside.
pub proof fn lemma_first_at_bounds(s: Seq<char>, c: char, i: int)
    requires
        0 <= i <= s.len(),
    ensures
        i <= first_at(s, c, i) <= s.len(),
        first_at(s, c, i) < s.len() ==> s[first_at(s, c, i)] == c,
    decreases s.len() - i,
{
    if i < s.len() && s[i] != c {
        lemma_first_at_bounds(s, c, i + 1);
    }
}

/// `find_from` answers an index from `i` to the end.
pub proof fn lemma_find_from_bounds(s: Seq<char>, pat: Seq<char>, i: int)
    requires
        0 <= i <= s.len(),
    ensures
        i <= find_from(s, pat, i) <= s.len(),
    decreases s.len() - i,
{
    if pat.len() == 0 {
        assert(s.subrange(i, i) =~= pat);
    }
    if i + pat.len() <= s.len() && s.subrange(i, i + pat.len()) != pat {
        lemma_find_from_bounds(s, pat, i + 1);
    }
}

/// `last_at` answers `-1` or an index below `n`.
pub proof fn lemma_last_at_bounds(s: Seq<char>, c: char, n: int)
    requires
        0 <= n <= s.len(),
    ensures
        -1 <= last_at(s, c, n) < n,
    decreases n,
{
    if n > 0 && s[n - 1] != c {
        lemma_last_at_bounds(s, c, n - 1);
    }
}

/// Index of the first `c` in `v` at or after `from`, or `v.len()`.
pub fn index_of_char(v: &[char], c: char, from: usize) -> (r: usize)
    requires
        from <= v.len(),
    ensures
        r == first_at(v@, c, from as int),
        from <= r <= v.len(),
{
    let mut i = from;
    while i < v.len() && v[i] != c
        invariant
            from <= i <= v.len(),
            first_at(v@, c, from as int) == first_at(v@, c, i as int),
        decreases v.len() - i,
    {
        i = i + 1;
    }
    i
}

/// Index of the first `a` or `b` in `v`, or `v.len()`.
pub fn index_of_either(v: &[char], a: char, b: char) -> (r: usize)
    ensures
        r == first_of_at(v@, a, b, 0),
        r <= v.len(),
{
    let mut i: usize = 0;
    while i < v.len() && v[i] != a && v[i] != b
        invariant
            i <= v.len(),
            first_of_at(v@, a, b, 0) == first_of_at(v@, a, b, i as int),
        decreases v.len() - i,
    {
        i = i + 1;
    }
    i
}

/// Index of the leftmost occurrence of `pat` in `v` at or after `from`, or
/// `v.len()`.
pub fn find_chars(v: &[char], pat: &[char], from: usize) -> (r: usize)
    requires
        from <= v.len(),
    ensures
        r == find_from(v@, pat@, from as int),
        from <= r <= v.len(),
{
    let mut i = from;
    while pat.len() <= v.len() - i && !occurs_at(v, i, pat)
        invariant
            from <= i <= v.len(),
            find_from(v@, pat@, from as int) == find_from(v@, pat@, i as int),
        decreases v.len() - i,
    {
        assert(v@.skip(i as int).take(pat.len() as int) == v@.subrange(i as int, i + pat.len()));
        if pat.len() == 0 {
            assert(v@.skip(i as int).take(0) =~= pat@);
        }
        i = i + 1;
    }
    if pat.len() > v.len() - i {
        v.len()
    } else {
        assert(v@.skip(i as int).take(pat.len() as int) == v@.subrange(i as int, i + pat.len()));
        i
    }
}

/// Index of the last `c` in `v`, if any.
pub fn last_index_of(v: &[char], c: char) -> (r: Option<usize>)
    ensures
        match r {
            Some(k) => k as int == last_at(v@, c, v.len() as int) && k < v.len(),
            None => last_at(v@, c, v.len() as int) == -1,
        },
{
    let mut n = v.len();
    while n > 0 && v[n - 1] != c
        invariant
            n <= v.len(),
            last_at(v@, c, v.len() as int) == last_at(v@, c, n as int),
        decreases n,
    {
        n = n - 1;
    }
    if n == 0 {
        None
    } else {
        Some(n - 1)
    }
}

/// Lexicographic order of character sequences by code point: the order
/// `Ord for str` gives, since UTF-8 preserves code-point order bytewise.
pub open spec fn lex_lt(a: Seq<char>, b: Seq<char>) -> bool
    decreases a.len(),
{
    if a.len() == 0 {
        b.len() > 0
    } else if b.len() == 0 {
        false
    } else if (a[0] as u32) < (b[0] as u32) {
        true
    } else if (a[0] as u32) > (b[0] as u32) {
        false
    } else {
        lex_lt(a.drop_first(), b.drop_first())
    }
}

/// No text sorts before itself.
pub proof fn lemma_lex_irreflexive(a: Seq<char>)
    ensures
        !lex_lt(a, a),
    decreases a.len(),
{
    if a.len() > 0 {
        lemma_lex_irreflexive(a.drop_first());
    }
}

/// Exactly one of `a < b`, `a == b`, `b < a` holds.
pub proof fn lemma_lex_trichotomy(a: Seq<char>, b: Seq<char>)
    ensures
        lex_lt(a, b) || a == b || lex_lt(b, a),
        !(lex_lt(a, b) && lex_lt(b, a)),
        !lex_lt(a, a),
    decreases a.len(),
{
    lemma_lex_irreflexive(a);
    if a.len() == 0 && b.len() == 0 {
        assert(a =~= b);
    }
    if a.len() > 0 && b.len() > 0 {
        lemma_lex_trichotomy(a.drop_first(), b.drop_first());
        if (a[0] as u32) == (b[0] as u32) && a.drop_first() == b.drop_first() {
            vstd::utf8::char_u32_cast(a[0], a[0] as u32);
            vstd::utf8::char_u32_cast(b[0], b[0] as u32);
            assert(a[0] == b[0]);
            assert(a =~= b) by {
                assert(a == seq![a[0]] + a.drop_first());
                assert(b == seq![b[0]] + b.drop_first());
            }
        }
    }
}

/// Lexicographic order is transitive.
pub proof fn lemma_lex_trans(a: Seq<char>, b: Seq<char>, c: Seq<char>)
    requires
        lex_lt(a, b),
        lex_lt(b, c),
    ensures
        lex_lt(a, c),
    decreases a.len(),
{
    if a.len() > 0 && b.len() > 0 && c.len() > 0 && (a[0] as u32) == (b[0] as u32) && (b[0] as u32)
        == (c[0] as u32) {
        lemma_lex_trans(a.drop_first(), b.drop_first(), c.drop_first());
    }
}

/// The outcome of comparing two texts.
#[derive(Debug, Clone, Copy, PartialEq, Eq, Structural)]
pub enum TextOrder {
    /// The first sorts before the second.
    Before,
    /// They are equal.
    Same,
    /// The first sorts after the second.
    After,
}

/// Compares two character slices lexicographically by code point.
pub fn lex_order(a: &[char], b: &[char]) -> (r: TextOrder)
    ensures
        r == TextOrder::Before <==> lex_lt(a@, b@),
        r == TextOrder::Same <==> a@ == b@,
        r == TextOrder::After <==> lex_lt(b@, a@),
{
    proof {
        lemma_lex_trichotomy(a@, b@);
    }
    let mut i: usize = 0;
    assert(a@.skip(0) == a@ && b@.skip(0) == b@);
    while i < a.len() && i < b.len() && a[i] == b[i]
        invariant
            i <= a.len(),
            i <= b.len(),
            lex_lt(a@, b@) == lex_lt(a@.skip(i as int), b@.skip(i as int)),
            lex_lt(b@, a@) == lex_lt(b@.skip(i as int), a@.skip(i as int)),
            a@.take(i as int) == b@.take(i as int),
        decreases a.len() - i,
    {
        assert(a@.skip(i as int).drop_first() == a@.skip(i + 1));
        assert(b@.skip(i as int).drop_first() == b@.skip(i + 1));
        assert(a@.take(i + 1) == a@.take(i as int).push(a@[i as int]));
        assert(b@.take(i + 1) == b@.take(i as int).push(b@[i as int]));
        i = i + 1;
    }
    if i == a.len() && i == b.len() {
        assert(a@ == a@.take(i as int));
        assert(b@ == b@.take(i as int));
        TextOrder::Same
    } else if i == a.len() {
        assert(a@.skip(i as int).len() == 0);
        assert(a@ != b@);
        TextOrder::Before
    } else if i == b.len() {
        assert(b@.skip(i as int).len() == 0);
        assert(a@ != b@);
        TextOrder::After
    } else {
        assert(a@.skip(i as int)[0] == a@[i as int]);
        assert(b@.skip(i as int)[0] == b@[i as int]);
        assert(a@ != b@) by {
            assert(a@[i as int] != b@[i as int]);
        }
        proof {
            vstd::utf8::char_u32_cast(a@[i as int], a@[i as int] as u32);
            vstd::utf8::char_u32_cast(b@[i as int], b@[i as int] as u32);
        }
        if (a[i] as u32) < (b[i] as u32) {
            TextOrder::Before
        } else {
            TextOrder::After
        }
    }
}

/// Ten to the `n`.
pub open spec fn pow10(n: nat) -> int
    decreases n,
{
    if n == 0 {
        1
    } else {
        10 * pow10((n - 1) as nat)
    }
}

/// A natural number below `10^k` has at most `k` decimal digits.
pub proof fn lemma_nat_dec_len(n: nat, k: nat)
    requires
        k >= 1,
        n < pow10(k),
    ensures
        nat_dec(n).len() <= k,
    decreases k,
{
    if n >= 10 {
        if k == 1 {
            assert(pow10(1) == 10) by {
                reveal_with_fuel(pow10, 2);
            }
        } else {
            let p = pow10((k - 1) as nat);
            assert(n / 10 < p) by (nonlinear_arith)
                requires
                    n < 10 * p,
                    n >= 10,
            ;
            lemma_nat_dec_len(n / 10, (k - 1) as nat);
        }
    }
}

/// The decimal rendering of an `i64` has at most 20 characters.
pub proof fn lemma_nat_dec_len_bound(x: int)
    requires
        i64::MIN <= x <= i64::MAX,
    ensures
        int_dec(x).len() <= 20,
{
    assert(pow10(19) == 10000000000000000000) by {
        reveal_with_fuel(pow10, 20);
    }
    if x < 0 {
        lemma_nat_dec_len((-x) as nat, 19);
    } else {
        lemma_nat_dec_len(x as nat, 19);
    }
}

/// `first_at` finds the first `c` at or after `i`.
pub proof fn lemma_first_at_found(s: Seq<char>, c: char, i: int, j: int)
    requires
        0 <= i <= j < s.len(),
        s[j] == c,
        forall|k: int| i <= k < j ==> s[k] != c,
    ensures
        first_at(s, c, i) == j,
    decreases j - i,
{
    if i < j {
        lemma_first_at_found(s, c, i + 1, j);
    }
}

/// `last_at` finds the last `c` before `n`.
pub proof fn lemma_last_at_found(s: Seq<char>, c: char, j: int, n: int)
    requires
        0 <= j < n <= s.len(),
        s[j] == c,
        forall|k: int| j < k < n ==> s[k] != c,
    ensures
        last_at(s, c, n) == j,
    decreases n,
{
    if n - 1 > j {
        lemma_last_at_found(s, c, j, n - 1);
    }
}

/// A decimal rendering holds only digits and a leading `-`.
pub proof fn lemma_int_dec_chars(x: int)
    ensures
        forall|i: int| 0 <= i < int_dec(x).len() ==> is_digit(#[trigger] int_dec(x)[i]) || int_dec(x)[i] == '-',
{
    if x < 0 {
        lemma_nat_dec((-x) as nat);
        let s = int_dec(x);
        assert forall|i: int| 0 <= i < s.len() implies is_digit(#[trigger] s[i]) || s[i] == '-' by {
            if i > 0 {
                assert(s[i] == nat_dec((-x) as nat)[i - 1]);
            }
        }
    } else {
        lemma_nat_dec(x as nat);
    }
}

} // verus!
