//! The yearly recap ("wrapped"): bucket a series' posts by a timezone-local
//! calendar and surface the year's headline numbers.
//!
//! The local calendar date of each post comes from chrono-tz (see
//! [`crate::clock`]); everything after that is computed and proved here.

use vstd::prelude::*;

use crate::clock::{LocalTime, local_time, local_time_in};

verus! {

/// One post, reduced to what the recap needs.
#[derive(Debug, Clone, Copy)]
pub struct WrappedPost {
    /// Day number.
    pub day: i64,
    /// Original post time, unix seconds.
    pub posted_at: i64,
}

/// Headline numbers for one calendar year of a series.
#[derive(Debug, Clone, PartialEq, Eq)]
pub struct Wrapped {
    /// The year summarised.
    pub year: i32,
    /// Posts archived in that year (timezone-local).
    pub posts_in_year: i64,
    /// Lowest day number posted that year, if any.
    pub first_day: Option<i64>,
    /// Highest day number posted that year, if any.
    pub last_day: Option<i64>,
    /// Busiest month as (1–12, count); `None` if the year is empty.
    pub busiest_month: Option<(u32, i64)>,
    /// Longest run of consecutive day numbers within the year.
    pub longest_streak: i64,
    /// All-time total posts in the series (context for the year).
    pub total_all_time: i64,
}

/// English month name for 1–12, `"?"` otherwise.
pub open spec fn month_name_spec(month: u32) -> Seq<char> {
    if month == 1 {
        "January"@
    } else if month == 2 {
        "February"@
    } else if month == 3 {
        "March"@
    } else if month == 4 {
        "April"@
    } else if month == 5 {
        "May"@
    } else if month == 6 {
        "June"@
    } else if month == 7 {
        "July"@
    } else if month == 8 {
        "August"@
    } else if month == 9 {
        "September"@
    } else if month == 10 {
        "October"@
    } else if month == 11 {
        "November"@
    } else if month == 12 {
        "December"@
    } else {
        "?"@
    }
}

/// English month name for 1–12 (out-of-range yields "?").
pub fn month_name(month: u32) -> (r: &'static str)
    ensures
        r@ == month_name_spec(month),
{
    if month == 1 {
        "January"
    } else if month == 2 {
        "February"
    } else if month == 3 {
        "March"
    } else if month == 4 {
        "April"
    } else if month == 5 {
        "May"
    } else if month == 6 {
        "June"
    } else if month == 7 {
        "July"
    } else if month == 8 {
        "August"
    } else if month == 9 {
        "September"
    } else if month == 10 {
        "October"
    } else if month == 11 {
        "November"
    } else if month == 12 {
        "December"
    } else {
        "?"
    }
}

/// Whether a post's local date falls in `year`.
pub open spec fn in_year(date: Option<LocalTime>, year: i32) -> bool {
    date matches Some(l) && l.year == year
}

/// The month slot (0–11 for a valid month) a local date is tallied under.
pub open spec fn month_slot(month: u32) -> int {
    if month == 0 {
        0
    } else {
        month - 1
    }
}

/// Day numbers of the first `n` posts that fall in `year`, in post order.
pub open spec fn year_days_upto(
    posts: Seq<WrappedPost>,
    dates: Seq<Option<LocalTime>>,
    year: i32,
    n: int,
) -> Seq<i64>
    decreases n,
{
    if n <= 0 {
        Seq::empty()
    } else {
        let prev = year_days_upto(posts, dates, year, n - 1);
        if in_year(dates[n - 1], year) {
            prev.push(posts[n - 1].day)
        } else {
            prev
        }
    }
}

/// Day numbers of the posts that fall in `year`, in post order.
pub open spec fn year_days(
    posts: Seq<WrappedPost>,
    dates: Seq<Option<LocalTime>>,
    year: i32,
) -> Seq<i64> {
    year_days_upto(posts, dates, year, posts.len() as int)
}

/// How many of the first `n` posts fall in `year` and in month slot `m`.
pub open spec fn month_tally_upto(dates: Seq<Option<LocalTime>>, year: i32, m: int, n: int) -> int
    decreases n,
{
    if n <= 0 {
        0
    } else {
        month_tally_upto(dates, year, m, n - 1) + (if in_year(dates[n - 1], year) && month_slot(
            dates[n - 1]->0.month,
        ) == m {
            1int
        } else {
            0int
        })
    }
}

/// Posts of `year` per month slot, January first.
pub open spec fn month_tallies(dates: Seq<Option<LocalTime>>, year: i32) -> Seq<int> {
    Seq::new(12, |m: int| month_tally_upto(dates, year, m, dates.len() as int))
}

/// Index of the busiest slot among the first `n`: the highest positive
/// count, the earliest slot on ties; `None` when all are zero.
pub open spec fn best_slot(t: Seq<int>, n: int) -> Option<int>
    decreases n,
{
    if n <= 0 {
        None
    } else {
        let prev = best_slot(t, n - 1);
        if t[n - 1] > 0 && (prev is None || t[n - 1] > t[prev->0]) {
            Some(n - 1)
        } else {
            prev
        }
    }
}

/// The busiest month as (1–12, count), if any month has a post.
pub open spec fn busiest_spec(t: Seq<int>) -> Option<(u32, i64)> {
    match best_slot(t, 12) {
        Some(k) => Some(((k + 1) as u32, t[k] as i64)),
        None => None,
    }
}

/// The day number `v` occurs in `days`.
pub open spec fn occurs(days: Seq<i64>, v: int) -> bool {
    exists|k: int| 0 <= k < days.len() && days[k] == v
}

/// The days `start, start + 1, …, start + len - 1` all occur in `days`.
pub open spec fn consecutive_in(days: Seq<i64>, start: int, len: int) -> bool {
    forall|j: int| 0 <= j < len ==> #[trigger] occurs(days, start + j)
}

/// `len` is the length of the longest run of consecutive day numbers in
/// `days` (duplicates and order do not matter).
pub open spec fn is_longest_run(days: Seq<i64>, len: int) -> bool {
    &&& exists|start: int| consecutive_in(days, start, len)
    &&& forall|start: int, n: int| #[trigger] consecutive_in(days, start, n) ==> n <= len
}

/// `m` is the least element of `days`.
pub open spec fn is_min_of(days: Seq<i64>, m: i64) -> bool {
    occurs(days, m as int) && forall|i: int| 0 <= i < days.len() ==> m <= #[trigger] days[i]
}

/// `m` is the greatest element of `days`.
pub open spec fn is_max_of(days: Seq<i64>, m: i64) -> bool {
    occurs(days, m as int) && forall|i: int| 0 <= i < days.len() ==> #[trigger] days[i] <= m
}

/// What the recap of `posts` for `year` is, given each post's local date.
pub open spec fn wrapped_holds(
    posts: Seq<WrappedPost>,
    dates: Seq<Option<LocalTime>>,
    year: i32,
    w: Wrapped,
) -> bool {
    let yd = year_days(posts, dates, year);
    &&& w.year == year
    &&& w.posts_in_year == yd.len()
    &&& w.total_all_time == posts.len()
    &&& (yd.len() == 0 ==> w.first_day is None && w.last_day is None)
    &&& (yd.len() > 0 ==> (w.first_day matches Some(f) && is_min_of(yd, f)) && (
    w.last_day matches Some(l) && is_max_of(yd, l)))
    &&& w.busiest_month == busiest_spec(month_tallies(dates, year))
    &&& is_longest_run(yd, w.longest_streak as int)
}

/// The local dates of `posts` in the named timezone.
pub open spec fn local_dates(posts: Seq<WrappedPost>, tz: Seq<char>) -> Seq<Option<LocalTime>> {
    Seq::new(posts.len(), |i: int| local_time_in(tz, posts[i].posted_at))
}

proof fn lemma_year_days_len(posts: Seq<WrappedPost>, dates: Seq<Option<LocalTime>>, year: i32, n: int)
    requires
        0 <= n,
    ensures
        year_days_upto(posts, dates, year, n).len() <= n,
    decreases n,
{
    if n > 0 {
        lemma_year_days_len(posts, dates, year, n - 1);
    }
}

proof fn lemma_tally_bound(dates: Seq<Option<LocalTime>>, year: i32, m: int, n: int)
    requires
        0 <= n,
    ensures
        0 <= month_tally_upto(dates, year, m, n) <= n,
    decreases n,
{
    if n > 0 {
        lemma_tally_bound(dates, year, m, n - 1);
    }
}

proof fn lemma_occurs_push(s: Seq<i64>, x: i64)
    ensures
        forall|v: int| #[trigger] occurs(s.push(x), v) <==> (occurs(s, v) || v == x),
{
    let t = s.push(x);
    assert forall|v: int| #[trigger] occurs(t, v) <==> (occurs(s, v) || v == x) by {
        if occurs(t, v) {
            let k = choose|k: int| 0 <= k < t.len() && t[k] == v;
            if k < s.len() {
                assert(s[k] == v);
            }
        }
        if occurs(s, v) {
            let k = choose|k: int| 0 <= k < s.len() && s[k] == v;
            assert(t[k] == v);
        }
        if v == x {
            assert(t[s.len() as int] == v);
        }
    }
}

proof fn lemma_occurs_insert(s: Seq<i64>, pos: int, x: i64)
    requires
        0 <= pos <= s.len(),
    ensures
        forall|v: int| #[trigger] occurs(s.insert(pos, x), v) <==> (occurs(s, v) || v == x),
{
    let t = s.insert(pos, x);
    assert forall|v: int| #[trigger] occurs(t, v) <==> (occurs(s, v) || v == x) by {
        if occurs(t, v) {
            let k = choose|k: int| 0 <= k < t.len() && t[k] == v;
            if k < pos {
                assert(s[k] == v);
            } else if k > pos {
                assert(s[k - 1] == v);
            }
        }
        if occurs(s, v) {
            let k = choose|k: int| 0 <= k < s.len() && s[k] == v;
            if k < pos {
                assert(t[k] == v);
            } else {
                assert(t[k + 1] == v);
            }
        }
        if v == x {
            assert(t[pos] == v);
        }
    }
}

/// Sorts `days` ascending (insertion sort), keeping which values occur.
fn sorted_days(days: &Vec<i64>) -> (s: Vec<i64>)
    ensures
        forall|i: int, j: int| 0 <= i <= j < s.len() ==> s[i] <= s[j],
        forall|v: int| #[trigger] occurs(s@, v) <==> occurs(days@, v),
        s.len() == days.len(),
{
    let mut s: Vec<i64> = Vec::new();
    let mut i: usize = 0;
    while i < days.len()
        invariant
            i <= days.len(),
            s.len() == i,
            forall|a: int, b: int| 0 <= a <= b < s.len() ==> s[a] <= s[b],
            forall|v: int| #[trigger] occurs(s@, v) <==> occurs(days@.take(i as int), v),
        decreases days.len() - i,
    {
        let x = days[i];
        let mut pos: usize = 0;
        while pos < s.len() && s[pos] <= x
            invariant
                pos <= s.len(),
                forall|k: int| 0 <= k < pos ==> s[k] <= x,
            decreases s.len() - pos,
        {
            pos = pos + 1;
        }
        let ghost old_s = s@;
        assert(forall|k: int| pos <= k < old_s.len() ==> x < old_s[k]) by {
            if pos < old_s.len() {
                assert(x < old_s[pos as int]);
            }
        }
        s.insert(pos, x);
        assert(s@ == old_s.insert(pos as int, x));
        assert forall|a: int, b: int| 0 <= a <= b < s.len() implies s[a] <= s[b] by {
            if a < pos && b < pos {
            } else if a < pos && b == pos {
            } else if a < pos {
                assert(s[b] == old_s[b - 1]);
            } else if a == pos && b == pos {
            } else if a == pos {
                assert(s[b] == old_s[b - 1]);
            } else {
                assert(s[a] == old_s[a - 1]);
                assert(s[b] == old_s[b - 1]);
            }
        }
        proof {
            let pre = days@.take(i as int);
            assert(days@.take(i as int + 1) == pre.push(x));
            lemma_occurs_push(pre, x);
            lemma_occurs_insert(old_s, pos as int, x);
        }
        i = i + 1;
    }
    assert(days@.take(days.len() as int) == days@);
    s
}

/// Longest run of consecutive integers in an ascending slice; duplicates
/// don't extend a run.
fn longest_run(days: &Vec<i64>) -> (r: i64)
    requires
        forall|i: int, j: int| 0 <= i <= j < days.len() ==> days[i] <= days[j],
        days.len() < i64::MAX,
    ensures
        is_longest_run(days@, r as int),
{
    let mut longest: i64 = 0;
    let mut run: i64 = 0;
    let mut i: usize = 0;
    proof {
        let e = days@.take(0);
        assert(consecutive_in(e, 0, 0));
        assert forall|start: int, n: int| #[trigger] consecutive_in(e, start, n) implies n <= 0 by {
            if n > 0 {
                assert(occurs(e, start + 0));
            }
        }
    }
    while i < days.len()
        invariant
            i <= days.len(),
            days.len() < i64::MAX,
            forall|a: int, b: int| 0 <= a <= b < days.len() ==> days[a] <= days[b],
            0 <= run <= longest <= i,
            i == 0 ==> run == 0,
            i > 0 ==> run >= 1 && consecutive_in(days@.take(i as int), days[i - 1] - run + 1, run as int)
                && !occurs(days@.take(i as int), days[i - 1] - run),
            exists|start: int| consecutive_in(days@.take(i as int), start, longest as int),
            forall|start: int, n: int| #[trigger]
                consecutive_in(days@.take(i as int), start, n) ==> n <= longest,
        decreases days.len() - i,
    {
        let d = days[i];
        let ghost pre = days@.take(i as int);
        let ghost post = days@.take(i as int + 1);
        proof {
            assert(post == pre.push(d));
            lemma_occurs_push(pre, d);
            assert forall|v: int| #[trigger] occurs(pre, v) implies v <= d by {
                let k = choose|k: int| 0 <= k < pre.len() && pre[k] == v;
                assert(days[k] <= days[i as int]);
            }
        }
        let ghost old_run = run;
        let ghost old_longest = longest;
        let ghost st_old = choose|start: int| consecutive_in(pre, start, old_longest as int);
        if i > 0 && days[i - 1] == d {
            proof {
                assert(occurs(pre, d as int)) by {
                    assert(pre[i - 1] == d);
                }
                assert forall|start: int, n: int| #[trigger]
                    consecutive_in(post, start, n) implies n <= longest by {
                    assert(consecutive_in(pre, start, n)) by {
                        assert forall|j: int| 0 <= j < n implies #[trigger] occurs(pre, start + j) by {
                            assert(occurs(post, start + j));
                        }
                    }
                }
                assert(consecutive_in(post, st_old, longest as int)) by {
                    assert forall|j: int| 0 <= j < longest implies #[trigger] occurs(post, st_old + j) by {
                        assert(occurs(pre, st_old + j));
                    }
                }
                assert(consecutive_in(post, d - run + 1, run as int)) by {
                    assert forall|j: int| 0 <= j < run implies #[trigger] occurs(post, d - run + 1 + j) by {
                        assert(occurs(pre, days[i - 1] - run + 1 + j));
                    }
                }
            }
        } else {
            let extends = i > 0 && days[i - 1] < d && d - 1 == days[i - 1];
            if extends {
                run = run + 1;
            } else {
                run = 1;
            }
            proof {
                assert(consecutive_in(post, d - run + 1, run as int)) by {
                    assert forall|j: int| 0 <= j < run implies #[trigger] occurs(post, d - run + 1 + j) by {
                        if j < run - 1 {
                            assert(occurs(pre, days[i - 1] - old_run + 1 + j));
                        }
                    }
                }
                assert(!occurs(post, d - run)) by {
                    if !extends && i > 0 {
                        if occurs(pre, d - 1) {
                            let k = choose|k: int| 0 <= k < pre.len() && pre[k] == d - 1;
                            assert(days[k] <= days[i - 1]);
                        }
                        assert(days[i - 1] <= d);
                    }
                }
            }
            if run > longest {
                longest = run;
            }
            proof {
                assert forall|start: int, n: int| #[trigger]
                    consecutive_in(post, start, n) implies n <= longest by {
                    if n > 0 {
                        assert(occurs(post, start + (n - 1)));
                        if start + n - 1 < d {
                            assert(consecutive_in(pre, start, n)) by {
                                assert forall|j: int| 0 <= j < n implies #[trigger] occurs(
                                    pre,
                                    start + j,
                                ) by {
                                    assert(occurs(post, start + j));
                                }
                            }
                        } else if n > run {
                            assert(occurs(post, start + (n - 1 - run)));
                        }
                    }
                }
                if run == longest {
                    assert(consecutive_in(post, d - run + 1, longest as int));
                } else {
                    assert(consecutive_in(post, st_old, longest as int)) by {
                        assert forall|j: int| 0 <= j < longest implies #[trigger] occurs(
                            post,
                            st_old + j,
                        ) by {
                            assert(occurs(pre, st_old + j));
                        }
                    }
                }
            }
        }
        i = i + 1;
    }
    assert(days@.take(days.len() as int) == days@);
    longest
}

/// Index of the busiest month slot in `tallies`, as [`best_slot`] states.
fn busiest_of(tallies: &Vec<i64>) -> (r: Option<(u32, i64)>)
    requires
        tallies.len() == 12,
    ensures
        r == busiest_spec(tallies@.map_values(|c: i64| c as int)),
{
    let ghost t = tallies@.map_values(|c: i64| c as int);
    let mut best: Option<usize> = None;
    let mut m: usize = 0;
    while m < 12
        invariant
            m <= 12,
            tallies.len() == 12,
            t == tallies@.map_values(|c: i64| c as int),
            best matches Some(b) ==> b < m,
            best_slot(t, m as int) == (match best {
                Some(b) => Some(b as int),
                None => None,
            }),
        decreases 12 - m,
    {
        let c = tallies[m];
        let take = match best {
            Some(b) => c > 0 && c > tallies[b],
            None => c > 0,
        };
        if take {
            best = Some(m);
        }
        m = m + 1;
    }
    match best {
        Some(b) => Some(((b + 1) as u32, tallies[b])),
        None => None,
    }
}

/// Summarises `posts` for `year`, given each post's local calendar date
/// (`dates[i]` for `posts[i]`; `None` for a post chrono could not place).
pub fn summarize_dated(posts: &[WrappedPost], dates: &[Option<LocalTime>], year: i32) -> (r: Wrapped)
    requires
        posts.len() == dates.len(),
        posts.len() < i64::MAX,
    ensures
        wrapped_holds(posts@, dates@, year, r),
{
    let mut yd: Vec<i64> = Vec::new();
    let mut months: Vec<i64> = vec![0, 0, 0, 0, 0, 0, 0, 0, 0, 0, 0, 0];
    let mut i: usize = 0;
    while i < posts.len()
        invariant
            i <= posts.len(),
            posts.len() == dates.len(),
            posts.len() < i64::MAX,
            yd@ == year_days_upto(posts@, dates@, year, i as int),
            months.len() == 12,
            forall|m: int| 0 <= m < 12 ==> #[trigger] months[m] == month_tally_upto(dates@, year, m, i as int),
        decreases posts.len() - i,
    {
        proof {
            assert forall|m: int| 0 <= m < 12 implies #[trigger] months[m] <= i by {
                lemma_tally_bound(dates@, year, m, i as int);
            }
        }
        match dates[i] {
            Some(l) => {
                if l.year == year {
                    yd.push(posts[i].day);
                    let slot: usize = if l.month == 0 {
                        0
                    } else {
                        (l.month - 1) as usize
                    };
                    if slot < 12 {
                        let c = months[slot];
                        months.set(slot, c + 1);
                    }
                    proof {
                        assert forall|m: int| 0 <= m < 12 implies #[trigger] months[m]
                            == month_tally_upto(dates@, year, m, i + 1) by {
                            assert(month_slot(l.month) == slot as int);
                        }
                    }
                }
            },
            None => {},
        }
        i = i + 1;
    }
    proof {
        lemma_year_days_len(posts@, dates@, year, posts.len() as int);
    }
    let posts_in_year = yd.len() as i64;
    let sorted = sorted_days(&yd);
    let (first_day, last_day) = if sorted.len() == 0 {
        (None, None)
    } else {
        let lo = sorted[0];
        let hi = sorted[sorted.len() - 1];
        proof {
            assert(occurs(sorted@, lo as int)) by {
                assert(sorted@[0] == lo);
            }
            assert(occurs(sorted@, hi as int)) by {
                assert(sorted@[sorted.len() - 1] == hi);
            }
            assert forall|k: int| 0 <= k < yd.len() implies lo <= #[trigger] yd@[k] && yd@[k] <= hi by {
                assert(occurs(yd@, yd@[k] as int));
                assert(occurs(sorted@, yd@[k] as int));
                let j = choose|j: int| 0 <= j < sorted.len() && sorted@[j] == yd@[k];
                assert(sorted[0] <= sorted[j]);
                assert(sorted[j] <= sorted[sorted.len() - 1]);
            }
        }
        (Some(lo), Some(hi))
    };
    let busiest_month = busiest_of(&months);
    proof {
        assert(months@.map_values(|c: i64| c as int) == month_tallies(dates@, year));
    }
    let longest_streak = longest_run(&sorted);
    proof {
        assert forall|start: int, n: int| #[trigger] consecutive_in(yd@, start, n)
            <==> consecutive_in(sorted@, start, n) by {
            if consecutive_in(yd@, start, n) {
                assert forall|j: int| 0 <= j < n implies #[trigger] occurs(sorted@, start + j) by {
                    assert(occurs(yd@, start + j));
                }
            }
            if consecutive_in(sorted@, start, n) {
                assert forall|j: int| 0 <= j < n implies #[trigger] occurs(yd@, start + j) by {
                    assert(occurs(sorted@, start + j));
                }
            }
        }
        let w = choose|start: int| consecutive_in(sorted@, start, longest_streak as int);
        assert(consecutive_in(yd@, w, longest_streak as int));
    }
    Wrapped {
        year,
        posts_in_year,
        first_day,
        last_day,
        busiest_month,
        longest_streak,
        total_all_time: posts.len() as i64,
    }
}

/// Summarises `posts` for `year` in the named IANA timezone: each
/// `posted_at` is placed on that zone's local calendar by chrono-tz, and
/// the recap is computed from those dates. `posts` need not be sorted.
pub fn summarize(posts: &[WrappedPost], year: i32, tz: &str) -> (r: Wrapped)
    requires
        posts.len() < i64::MAX,
    ensures
        wrapped_holds(posts@, local_dates(posts@, tz@), year, r),
        r.busiest_month is None <==> r.posts_in_year == 0,
{
    let mut dates: Vec<Option<LocalTime>> = Vec::new();
    let mut i: usize = 0;
    while i < posts.len()
        invariant
            i <= posts.len(),
            dates.len() == i,
            forall|k: int| 0 <= k < i ==> #[trigger] dates@[k] == local_time_in(tz@, posts@[k].posted_at),
            forall|k: int| 0 <= k < i ==> (#[trigger] dates@[k] matches Some(l) ==> 1 <= l.month <= 12),
        decreases posts.len() - i,
    {
        dates.push(local_time(tz, posts[i].posted_at));
        i = i + 1;
    }
    proof {
        assert(dates@ == local_dates(posts@, tz@));
    }
    let r = summarize_dated(posts, dates.as_slice(), year);
    proof {
        assert forall|k: int| 0 <= k < dates@.len() && #[trigger] in_year(dates@[k], year) implies 1
            <= dates@[k]->0.month <= 12 by {
            assert(dates@[k] matches Some(l) ==> 1 <= l.month <= 12);
        }
        lemma_wrapped_laws(posts@, dates@, year, r);
    }
    r
}

proof fn lemma_best_slot(t: Seq<int>, n: int)
    requires
        0 <= n <= t.len(),
    ensures
        best_slot(t, n) matches Some(k) ==> 0 <= k < n && t[k] > 0 && (forall|j: int|
            0 <= j < n ==> t[j] <= t[k]) && (forall|j: int| 0 <= j < k ==> t[j] < t[k]),
        best_slot(t, n) is None ==> forall|j: int| 0 <= j < n ==> t[j] <= 0,
    decreases n,
{
    if n > 0 {
        lemma_best_slot(t, n - 1);
    }
}

proof fn lemma_tally_positive(dates: Seq<Option<LocalTime>>, year: i32, k: int, n: int)
    requires
        0 <= k < n <= dates.len(),
        in_year(dates[k], year),
    ensures
        month_tally_upto(dates, year, month_slot(dates[k]->0.month), n) >= 1,
    decreases n,
{
    if n - 1 > k {
        lemma_tally_positive(dates, year, k, n - 1);
    }
    lemma_tally_bound(dates, year, month_slot(dates[k]->0.month), n - 1);
}

proof fn lemma_year_day_source(posts: Seq<WrappedPost>, dates: Seq<Option<LocalTime>>, year: i32, n: int)
    requires
        0 <= n <= posts.len(),
        posts.len() == dates.len(),
        year_days_upto(posts, dates, year, n).len() > 0,
    ensures
        exists|k: int| 0 <= k < n && #[trigger] in_year(dates[k], year),
    decreases n,
{
    if !in_year(dates[n - 1], year) {
        lemma_year_day_source(posts, dates, year, n - 1);
        let k = choose|k: int| 0 <= k < n - 1 && #[trigger] in_year(dates[k], year);
        assert(in_year(dates[k], year));
    }
}

/// A run of `len` consecutive day numbers needs at least `len` entries.
proof fn lemma_run_needs_entries(days: Seq<i64>, start: int, len: int)
    requires
        0 <= len,
        consecutive_in(days, start, len),
    ensures
        len <= days.len(),
{
    let vals = days.map_values(|x: i64| x as int);
    let range = vstd::set_lib::set_int_range(start, start + len);
    vstd::set_lib::lemma_int_range(start, start + len);
    vals.lemma_cardinality_of_set();
    assert(range.subset_of(vals.to_set())) by {
        assert forall|v: int| range.contains(v) implies vals.to_set().contains(v) by {
            assert(occurs(days, start + (v - start)));
            let k = choose|k: int| 0 <= k < days.len() && days[k] == v;
            assert(vals[k] == v);
        }
    }
    vstd::set_lib::lemma_len_subset(range, vals.to_set());
}

/// Laws of the yearly recap: the busiest month is a month with a post,
/// none has more posts and every earlier month has fewer; an empty month
/// table means no month has a post, and when every local date has a valid
/// month, the busiest month is absent exactly when the year has no post.
/// The first day is at most the last day. The longest streak is no longer
/// than the year's post count, and at least one day when the year has a
/// post.
pub proof fn lemma_wrapped_laws(
    posts: Seq<WrappedPost>,
    dates: Seq<Option<LocalTime>>,
    year: i32,
    w: Wrapped,
)
    requires
        posts.len() == dates.len(),
        wrapped_holds(posts, dates, year, w),
    ensures
        w.busiest_month matches Some((m, c)) ==> 1 <= m <= 12 && c > 0 && c == month_tallies(
            dates,
            year,
        )[m - 1] && (forall|j: int| 0 <= j < 12 ==> month_tallies(dates, year)[j] <= c) && (
        forall|j: int| 0 <= j < m - 1 ==> month_tallies(dates, year)[j] < c),
        w.busiest_month is None ==> forall|j: int| 0 <= j < 12 ==> month_tallies(dates, year)[j]
            == 0,
        (forall|i: int| 0 <= i < dates.len() && #[trigger] in_year(dates[i], year) ==> 1
            <= dates[i]->0.month <= 12) ==> (w.busiest_month is None <==> w.posts_in_year == 0),
        w.first_day matches Some(f) ==> w.last_day matches Some(l) && f <= l,
        w.posts_in_year <= w.total_all_time,
        0 <= w.longest_streak <= w.posts_in_year,
        w.posts_in_year > 0 ==> w.longest_streak >= 1,
{
    let t = month_tallies(dates, year);
    let yd0 = year_days(posts, dates, year);
    assert(consecutive_in(yd0, 0, 0));
    let st = choose|st: int| consecutive_in(yd0, st, w.longest_streak as int);
    lemma_run_needs_entries(yd0, st, w.longest_streak as int);
    if yd0.len() > 0 {
        assert(consecutive_in(yd0, yd0[0] as int, 1)) by {
            assert forall|j: int| 0 <= j < 1 implies #[trigger] occurs(yd0, yd0[0] + j) by {
                assert(yd0[0] == yd0[0] + j);
            }
        }
    }
    lemma_best_slot(t, 12);
    lemma_year_days_len(posts, dates, year, posts.len() as int);
    assert forall|j: int| 0 <= j < 12 implies 0 <= #[trigger] t[j] <= i64::MAX by {
        lemma_tally_bound(dates, year, j, dates.len() as int);
    }
    let yd = year_days(posts, dates, year);
    if w.first_day is Some {
        assert(yd.len() > 0);
        assert(w.first_day->0 <= yd[0] <= w.last_day->0);
    }
    if (forall|i: int| 0 <= i < dates.len() && #[trigger] in_year(dates[i], year) ==> 1
        <= dates[i]->0.month <= 12) {
        if w.posts_in_year != 0 {
            lemma_year_day_source(posts, dates, year, posts.len() as int);
            let k = choose|k: int| 0 <= k < posts.len() && #[trigger] in_year(dates[k], year);
            lemma_tally_positive(dates, year, k, dates.len() as int);
            let slot = month_slot(dates[k]->0.month);
            assert(t[slot] >= 1);
        }
        if w.posts_in_year == 0 {
            assert forall|j: int| 0 <= j < 12 implies t[j] <= 0 by {
                lemma_tally_zero(posts, dates, year, j, dates.len() as int);
            }
            lemma_best_none(t, 12);
        }
    }
}

proof fn lemma_tally_zero(posts: Seq<WrappedPost>, dates: Seq<Option<LocalTime>>, year: i32, m: int, n: int)
    requires
        0 <= n <= posts.len(),
        posts.len() == dates.len(),
        year_days_upto(posts, dates, year, n).len() == 0,
    ensures
        month_tally_upto(dates, year, m, n) == 0,
    decreases n,
{
    if n > 0 {
        lemma_tally_zero(posts, dates, year, m, n - 1);
    }
}

proof fn lemma_best_none(t: Seq<int>, n: int)
    requires
        0 <= n <= t.len(),
        forall|j: int| 0 <= j < n ==> t[j] <= 0,
    ensures
        best_slot(t, n) is None,
    decreases n,
{
    if n > 0 {
        lemma_best_none(t, n - 1);
    }
}


/// `perm` reorders the positions `0..n`: each position appears exactly once.
pub open spec fn is_reordering(perm: Seq<int>, n: int) -> bool {
    &&& perm.len() == n
    &&& forall|i: int| 0 <= i < n ==> 0 <= #[trigger] perm[i] < n
    &&& forall|i: int, j: int| 0 <= i < n && 0 <= j < n && #[trigger] perm[i] == #[trigger] perm[j] ==> i == j
    &&& forall|j: int| 0 <= j < n ==> #[trigger] reaches(perm, n, j)
}

/// Some position below `n` is sent to `j`.
pub open spec fn reaches(perm: Seq<int>, n: int, j: int) -> bool {
    exists|i: int| 0 <= i < n && perm[i] == j
}

/// The positions below `n` that satisfy `p`.
spec fn positions_where(p: spec_fn(int) -> bool, n: int) -> Set<int> {
    Set::new(|i: int| 0 <= i < n && p(i))
}

/// Positions whose local date falls in `year`.
spec fn in_year_at(dates: Seq<Option<LocalTime>>, year: i32) -> spec_fn(int) -> bool {
    |i: int| in_year(dates[i], year)
}

/// Positions whose local date falls in `year` and in month slot `m`.
spec fn in_slot_at(dates: Seq<Option<LocalTime>>, year: i32, m: int) -> spec_fn(int) -> bool {
    |i: int| in_year(dates[i], year) && month_slot(dates[i]->0.month) == m
}

proof fn lemma_positions_step(p: spec_fn(int) -> bool, n: int)
    requires
        0 <= n,
    ensures
        positions_where(p, n).finite(),
        n > 0 ==> positions_where(p, n).len() == positions_where(p, n - 1).len() + (if p(n - 1) {
            1int
        } else {
            0int
        }),
    decreases n,
{
    if n == 0 {
        assert(positions_where(p, 0) =~= Set::empty());
    } else {
        lemma_positions_step(p, n - 1);
        let prev = positions_where(p, n - 1);
        assert(!prev.contains(n - 1));
        if p(n - 1) {
            assert(positions_where(p, n) =~= prev.insert(n - 1));
        } else {
            assert(positions_where(p, n) =~= prev);
        }
    }
}

proof fn lemma_year_count(posts: Seq<WrappedPost>, dates: Seq<Option<LocalTime>>, year: i32, n: int)
    requires
        0 <= n,
    ensures
        year_days_upto(posts, dates, year, n).len() == positions_where(in_year_at(dates, year), n).len(),
    decreases n,
{
    lemma_positions_step(in_year_at(dates, year), n);
    if n > 0 {
        lemma_year_count(posts, dates, year, n - 1);
        assert(in_year_at(dates, year)(n - 1) == in_year(dates[n - 1], year));
    } else {
        assert(positions_where(in_year_at(dates, year), n) =~= Set::empty());
    }
}

proof fn lemma_slot_count(dates: Seq<Option<LocalTime>>, year: i32, m: int, n: int)
    requires
        0 <= n,
    ensures
        month_tally_upto(dates, year, m, n) == positions_where(in_slot_at(dates, year, m), n).len(),
    decreases n,
{
    lemma_positions_step(in_slot_at(dates, year, m), n);
    if n > 0 {
        lemma_slot_count(dates, year, m, n - 1);
        assert(in_slot_at(dates, year, m)(n - 1) == (in_year(dates[n - 1], year) && month_slot(
            dates[n - 1]->0.month,
        ) == m));
    } else {
        assert(positions_where(in_slot_at(dates, year, m), n) =~= Set::empty());
    }
}

/// Reordering the positions keeps the number that satisfy a property.
proof fn lemma_positions_reordered(p: spec_fn(int) -> bool, q: spec_fn(int) -> bool, perm: Seq<int>, n: int)
    requires
        0 <= n,
        is_reordering(perm, n),
        forall|i: int| 0 <= i < n ==> #[trigger] q(i) == p(perm[i]),
    ensures
        positions_where(q, n).len() == positions_where(p, n).len(),
{
    lemma_positions_step(q, n);
    let f = |i: int| perm[i];
    let a = positions_where(q, n);
    let b = positions_where(p, n);
    assert forall|j: int| b.contains(j) implies a.map(f).contains(j) by {
        assert(reaches(perm, n, j));
        let i = choose|i: int| 0 <= i < n && perm[i] == j;
        assert(q(i));
        assert(a.contains(i) && f(i) == j);
    }
    assert forall|j: int| a.map(f).contains(j) implies b.contains(j) by {
        let i = choose|i: int| a.contains(i) && f(i) == j;
        assert(q(i));
    }
    assert(a.map(f) =~= b);
    assert(vstd::relations::injective_on(f, a)) by {
        assert forall|x1: int, x2: int| a.contains(x1) && a.contains(x2) && #[trigger] f(x1) == #[trigger] f(x2) implies x1 == x2 by {
            assert(perm[x1] == perm[x2]);
        }
    }
    vstd::set_lib::lemma_map_size(a, b, f);
}

proof fn lemma_year_days_occurs(posts: Seq<WrappedPost>, dates: Seq<Option<LocalTime>>, year: i32, n: int, v: int)
    requires
        0 <= n,
    ensures
        occurs(year_days_upto(posts, dates, year, n), v) <==> exists|i: int|
            0 <= i < n && #[trigger] in_year(dates[i], year) && posts[i].day == v,
    decreases n,
{
    if n > 0 {
        lemma_year_days_occurs(posts, dates, year, n - 1, v);
        let prev = year_days_upto(posts, dates, year, n - 1);
        let cur = year_days_upto(posts, dates, year, n);
        if occurs(cur, v) {
            let k = choose|k: int| 0 <= k < cur.len() && cur[k] == v;
            if k < prev.len() {
                assert(prev[k] == v);
                assert(occurs(prev, v));
            } else {
                assert(in_year(dates[n - 1], year) && posts[n - 1].day == v);
            }
        }
        if exists|i: int| 0 <= i < n && #[trigger] in_year(dates[i], year) && posts[i].day == v {
            let i = choose|i: int| 0 <= i < n && #[trigger] in_year(dates[i], year) && posts[i].day == v;
            if i < n - 1 {
                assert(occurs(prev, v));
                let k = choose|k: int| 0 <= k < prev.len() && prev[k] == v;
                assert(cur[k] == v);
            } else {
                assert(cur[cur.len() - 1] == v);
            }
        }
    }
}

/// The recap does not depend on the order of the posts: reordering the
/// posts, each with its local date, gives the same recap.
pub proof fn lemma_recap_order_free(
    posts: Seq<WrappedPost>,
    dates: Seq<Option<LocalTime>>,
    posts2: Seq<WrappedPost>,
    dates2: Seq<Option<LocalTime>>,
    perm: Seq<int>,
    year: i32,
    w: Wrapped,
    w2: Wrapped,
)
    requires
        posts.len() == dates.len(),
        posts2.len() == posts.len(),
        dates2.len() == dates.len(),
        is_reordering(perm, posts.len() as int),
        forall|i: int| 0 <= i < posts.len() ==> #[trigger] posts2[i] == posts[perm[i]] && dates2[i] == dates[perm[i]],
        wrapped_holds(posts, dates, year, w),
        wrapped_holds(posts2, dates2, year, w2),
    ensures
        w2 == w,
{
    let n = posts.len() as int;
    let yd = year_days(posts, dates, year);
    let yd2 = year_days(posts2, dates2, year);
    lemma_year_count(posts, dates, year, n);
    lemma_year_count(posts2, dates2, year, n);
    assert forall|i: int| 0 <= i < n implies #[trigger] in_year_at(dates2, year)(i) == in_year_at(dates, year)(perm[i]) by {
        assert(posts2[i] == posts[perm[i]]);
    }
    lemma_positions_reordered(in_year_at(dates, year), in_year_at(dates2, year), perm, n);
    assert(yd.len() == yd2.len());
    assert forall|v: int| occurs(yd2, v) <==> occurs(yd, v) by {
        lemma_year_days_occurs(posts, dates, year, n, v);
        lemma_year_days_occurs(posts2, dates2, year, n, v);
        if occurs(yd2, v) {
            let i = choose|i: int| 0 <= i < n && #[trigger] in_year(dates2[i], year) && posts2[i].day == v;
            assert(in_year(dates[perm[i]], year) && posts[perm[i]].day == v);
        }
        if occurs(yd, v) {
            let j = choose|j: int| 0 <= j < n && #[trigger] in_year(dates[j], year) && posts[j].day == v;
            assert(reaches(perm, n, j));
            let i = choose|i: int| 0 <= i < n && perm[i] == j;
            assert(posts2[i] == posts[perm[i]]);
            assert(in_year(dates2[i], year) && posts2[i].day == v);
        }
    }
    assert forall|m: int| 0 <= m < 12 implies #[trigger] month_tallies(dates2, year)[m] == month_tallies(dates, year)[m] by {
        lemma_slot_count(dates, year, m, n);
        lemma_slot_count(dates2, year, m, n);
        assert forall|i: int| 0 <= i < n implies #[trigger] in_slot_at(dates2, year, m)(i) == in_slot_at(dates, year, m)(perm[i]) by {
            assert(posts2[i] == posts[perm[i]]);
        }
        lemma_positions_reordered(in_slot_at(dates, year, m), in_slot_at(dates2, year, m), perm, n);
    }
    assert(month_tallies(dates2, year) =~= month_tallies(dates, year));
    if yd.len() > 0 {
        let f = w.first_day->0;
        let f2 = w2.first_day->0;
        let l = w.last_day->0;
        let l2 = w2.last_day->0;
        let k = choose|k: int| 0 <= k < yd.len() && yd[k] == f;
        assert(occurs(yd, f as int));
        assert(occurs(yd2, f as int));
        let k2 = choose|k: int| 0 <= k < yd2.len() && yd2[k] == f2;
        assert(occurs(yd2, f2 as int));
        assert(occurs(yd, yd2[k2] as int));
        let j = choose|j: int| 0 <= j < yd.len() && yd[j] == f2;
        let j2 = choose|j: int| 0 <= j < yd2.len() && yd2[j] == f;
        assert(f <= yd[j]);
        assert(f2 <= yd2[j2]);
        assert(occurs(yd, l as int));
        assert(occurs(yd2, l as int));
        let m = choose|m: int| 0 <= m < yd2.len() && yd2[m] == l;
        assert(occurs(yd2, l2 as int));
        let m2 = choose|m: int| 0 <= m < yd.len() && yd[m] == l2;
        assert(yd[m2] <= l);
        assert(yd2[m] <= l2);
    }
    assert forall|start: int, len: int| #[trigger] consecutive_in(yd2, start, len) <==> consecutive_in(yd, start, len) by {
        if consecutive_in(yd2, start, len) {
            assert forall|j: int| 0 <= j < len implies #[trigger] occurs(yd, start + j) by {
                assert(occurs(yd2, start + j));
            }
        }
        if consecutive_in(yd, start, len) {
            assert forall|j: int| 0 <= j < len implies #[trigger] occurs(yd2, start + j) by {
                assert(occurs(yd, start + j));
            }
        }
    }
    let s1 = choose|st: int| consecutive_in(yd, st, w.longest_streak as int);
    let s2 = choose|st: int| consecutive_in(yd2, st, w2.longest_streak as int);
    assert(consecutive_in(yd2, s1, w.longest_streak as int));
    assert(consecutive_in(yd, s2, w2.longest_streak as int));
}


/// The recap in a timezone does not depend on the order of the posts:
/// reordering them gives the same recap.
pub proof fn lemma_summary_order_free(
    posts: Seq<WrappedPost>,
    posts2: Seq<WrappedPost>,
    perm: Seq<int>,
    tz: Seq<char>,
    year: i32,
    w: Wrapped,
    w2: Wrapped,
)
    requires
        posts2.len() == posts.len(),
        is_reordering(perm, posts.len() as int),
        forall|i: int| 0 <= i < posts.len() ==> #[trigger] posts2[i] == posts[perm[i]],
        wrapped_holds(posts, local_dates(posts, tz), year, w),
        wrapped_holds(posts2, local_dates(posts2, tz), year, w2),
    ensures
        w2 == w,
{
    let d = local_dates(posts, tz);
    let d2 = local_dates(posts2, tz);
    assert forall|i: int| 0 <= i < posts.len() implies #[trigger] posts2[i] == posts[perm[i]] && d2[i] == d[perm[i]] by {
        assert(posts2[i] == posts[perm[i]]);
    }
    lemma_recap_order_free(posts, d, posts2, d2, perm, year, w, w2);
}

} // verus!
