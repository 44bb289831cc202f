//! Streak and coverage statistics over a series' archived day numbers.
//!
//! Day-number based: a "streak" is a run of consecutive day numbers,
//! independent of calendar dates.

use vstd::prelude::*;

use crate::wrapped::{consecutive_in, is_longest_run, occurs};

verus! {

/// Aggregate statistics for one series.
#[derive(Debug, Clone, Copy, PartialEq, Eq, Structural)]
pub struct SeriesStats {
    /// Total archived days.
    pub total: i64,
    /// Length of the consecutive run ending at the highest archived day.
    pub current_streak: i64,
    /// Length of the longest consecutive run anywhere in the series.
    pub longest_streak: i64,
    /// Days in `[start_day, max_day]` with no archive. Zero when empty.
    pub missed: i64,
    /// Highest archived day, if any.
    pub max_day: Option<i64>,
}

/// Strictly ascending (sorted and without duplicates).
pub open spec fn strictly_ascending(s: Seq<i64>) -> bool {
    forall|i: int, j: int| 0 <= i < j < s.len() ==> s[i] < s[j]
}

/// Length of the run of consecutive day numbers that ends at index `i`.
pub open spec fn run_at(s: Seq<i64>, i: int) -> int
    decreases i,
{
    if i <= 0 {
        1
    } else if s[i] == s[i - 1] + 1 {
        run_at(s, i - 1) + 1
    } else {
        1
    }
}

/// Longest run ending at any index below `n` (0 when `n == 0`).
pub open spec fn longest_upto(s: Seq<i64>, n: int) -> int
    decreases n,
{
    if n <= 0 {
        0
    } else {
        let prev = longest_upto(s, n - 1);
        let here = run_at(s, n - 1);
        if here > prev {
            here
        } else {
            prev
        }
    }
}

/// Number of days at or after `start_day`.
pub open spec fn count_from(s: Seq<i64>, start_day: i64) -> int
    decreases s.len(),
{
    if s.len() == 0 {
        0
    } else {
        count_from(s.drop_last(), start_day) + (if s.last() >= start_day {
            1int
        } else {
            0int
        })
    }
}

/// The statistics of `days`: total count, the run ending at the highest
/// day, the longest run, and the days of `[start_day, max_day]` without an
/// archive (never negative).
pub open spec fn stats_spec(days: Seq<i64>, start_day: i64) -> SeriesStats {
    if days.len() == 0 {
        SeriesStats { total: 0, current_streak: 0, longest_streak: 0, missed: 0, max_day: None }
    } else {
        let max_day = days.last();
        let expected = if max_day - start_day + 1 > 0 {
            max_day - start_day + 1
        } else {
            0
        };
        let missed = if expected - count_from(days, start_day) > 0 {
            expected - count_from(days, start_day)
        } else {
            0
        };
        SeriesStats {
            total: days.len() as i64,
            current_streak: run_at(days, days.len() - 1) as i64,
            longest_streak: longest_upto(days, days.len() as int) as i64,
            missed: missed as i64,
            max_day: Some(max_day),
        }
    }
}

proof fn lemma_run_bounds(s: Seq<i64>, i: int)
    requires
        0 <= i,
    ensures
        1 <= run_at(s, i) <= i + 1,
    decreases i,
{
    if i > 0 {
        lemma_run_bounds(s, i - 1);
    }
}

proof fn lemma_longest_bounds(s: Seq<i64>, n: int)
    requires
        0 <= n,
    ensures
        0 <= longest_upto(s, n) <= n,
        n > 0 ==> longest_upto(s, n) >= run_at(s, n - 1),
        n > 0 ==> longest_upto(s, n) >= 1,
    decreases n,
{
    if n > 0 {
        lemma_longest_bounds(s, n - 1);
        lemma_run_bounds(s, n - 1);
    }
}

proof fn lemma_count_from_bounds(s: Seq<i64>, start_day: i64)
    ensures
        0 <= count_from(s, start_day) <= s.len(),
    decreases s.len(),
{
    if s.len() > 0 {
        lemma_count_from_bounds(s.drop_last(), start_day);
    }
}

/// Streak facts that hold of every series: the current streak never
/// exceeds the longest, which never exceeds the number of archived days;
/// a non-empty series has a streak of at least one day.
pub proof fn lemma_streak_order(days: Seq<i64>, start_day: i64)
    requires
        strictly_ascending(days),
        days.len() < i64::MAX,
        days.len() > 0 ==> i64::MIN <= days.last() - start_day && days.last() - start_day + 1
            <= i64::MAX,
    ensures
        stats_spec(days, start_day).current_streak <= stats_spec(days, start_day).longest_streak,
        stats_spec(days, start_day).longest_streak <= stats_spec(days, start_day).total,
        days.len() > 0 ==> stats_spec(days, start_day).current_streak >= 1,
        stats_spec(days, start_day).missed >= 0,
{
    if days.len() > 0 {
        lemma_longest_bounds(days, days.len() as int);
        lemma_run_bounds(days, days.len() - 1);
        lemma_count_from_bounds(days, start_day);
    }
}

/// The days of `[start_day, max_day]` that have no archive.
pub open spec fn absent_days(days: Seq<i64>, start_day: i64) -> Set<int> {
    Set::new(|d: int| start_day <= d <= days.last() && !occurs(days, d))
}

/// The archived days at or after `start_day`.
spec fn present_from(days: Seq<i64>, start_day: i64) -> Set<int> {
    Set::new(|d: int| start_day <= d && occurs(days, d))
}

/// The run ending at index `i` is the values `s[i] - k` at indices `i - k`,
/// and the entry before it (if any) is lower than where the run starts.
proof fn lemma_run_shape(s: Seq<i64>, i: int)
    requires
        strictly_ascending(s),
        0 <= i < s.len(),
    ensures
        forall|k: int| 0 <= k < run_at(s, i) ==> #[trigger] s[i - k] == s[i] - k,
        i - run_at(s, i) >= 0 ==> s[i - run_at(s, i)] < s[i] - run_at(s, i),
    decreases i,
{
    if i > 0 {
        assert(s[i - 1] < s[i]);
        if s[i] == s[i - 1] + 1 {
            lemma_run_shape(s, i - 1);
            assert forall|k: int| 0 <= k < run_at(s, i) implies #[trigger] s[i - k] == s[i] - k by {
                if k > 0 {
                    assert(s[(i - 1) - (k - 1)] == s[i - 1] - (k - 1));
                }
            }
        }
    }
}

proof fn lemma_longest_reaches(s: Seq<i64>, n: int, p: int)
    requires
        0 <= p < n,
    ensures
        longest_upto(s, n) >= run_at(s, p),
    decreases n,
{
    if p < n - 1 {
        lemma_longest_reaches(s, n - 1, p);
    }
}

proof fn lemma_longest_attained(s: Seq<i64>, n: int)
    requires
        0 < n,
    ensures
        exists|m: int| 0 <= m < n && run_at(s, m) == longest_upto(s, n),
    decreases n,
{
    if n > 1 {
        lemma_longest_attained(s, n - 1);
        let m = choose|m: int| 0 <= m < n - 1 && run_at(s, m) == longest_upto(s, n - 1);
        if run_at(s, n - 1) > longest_upto(s, n - 1) {
            assert(run_at(s, n - 1) == longest_upto(s, n));
        } else {
            assert(run_at(s, m) == longest_upto(s, n));
        }
    } else {
        lemma_run_bounds(s, 0);
        assert(longest_upto(s, 0) == 0);
        assert(run_at(s, 0) == longest_upto(s, 1));
    }
}

/// A window of `len` consecutive present days ending at the value `s[p]`
/// lies inside the run ending at `p`.
proof fn lemma_window_in_run(s: Seq<i64>, a: int, len: int, p: int)
    requires
        strictly_ascending(s),
        1 <= len,
        0 <= p < s.len(),
        s[p] == a + len - 1,
        consecutive_in(s, a, len),
    ensures
        run_at(s, p) >= len,
    decreases len,
{
    lemma_run_bounds(s, p);
    if len > 1 {
        assert(occurs(s, a + (len - 2)));
        let q = choose|q: int| 0 <= q < s.len() && s[q] == a + (len - 2);
        if q >= p {
            assert(s[p] <= s[q]);
        }
        assert(q < p);
        if q < p - 1 {
            assert(s[q] < s[p - 1]);
        }
        assert(s[p - 1] < s[p]);
        assert(s[p - 1] == a + len - 2);
        assert(consecutive_in(s, a, len - 1)) by {
            assert forall|j: int| 0 <= j < len - 1 implies #[trigger] occurs(s, a + j) by {
                assert(occurs(s, a + j));
            }
        }
        lemma_window_in_run(s, a, len - 1, p - 1);
    }
}

proof fn lemma_present_count(days: Seq<i64>, start_day: i64)
    requires
        strictly_ascending(days),
    ensures
        present_from(days, start_day).finite(),
        present_from(days, start_day).len() == count_from(days, start_day),
    decreases days.len(),
{
    if days.len() == 0 {
        assert(present_from(days, start_day) =~= Set::empty());
    } else {
        let init = days.drop_last();
        assert(strictly_ascending(init));
        lemma_present_count(init, start_day);
        let last = days.last();
        let pi = present_from(init, start_day);
        assert(!pi.contains(last as int)) by {
            if occurs(init, last as int) {
                let k = choose|k: int| 0 <= k < init.len() && init[k] == last;
                assert(days[k] < days[days.len() - 1]);
            }
        }
        assert forall|d: int| occurs(days, d) <==> occurs(init, d) || d == last by {
            if occurs(days, d) {
                let k = choose|k: int| 0 <= k < days.len() && days[k] == d;
                if k < days.len() - 1 {
                    assert(init[k] == d);
                }
            }
            if occurs(init, d) {
                let k = choose|k: int| 0 <= k < init.len() && init[k] == d;
                assert(days[k] == d);
            }
            if d == last {
                assert(days[days.len() - 1] == d);
            }
        }
        if last >= start_day {
            assert(present_from(days, start_day) =~= pi.insert(last as int));
        } else {
            assert(present_from(days, start_day) =~= pi);
        }
    }
}

/// What the statistics mean, stated directly over the archived days: the
/// current streak is the run of consecutive days ending at the highest
/// one (the day before it is absent); the longest streak is the longest
/// run of consecutive days anywhere; `missed` counts the days of
/// `[start_day, max_day]` with no archive.
pub proof fn lemma_stats_meaning(days: Seq<i64>, start_day: i64)
    requires
        strictly_ascending(days),
        days.len() < i64::MAX,
        days.len() > 0,
        i64::MIN <= days.last() - start_day && days.last() - start_day + 1 <= i64::MAX,
    ensures
        ({
            let st = stats_spec(days, start_day);
            let last = days.last() as int;
            let cur = st.current_streak as int;
            &&& consecutive_in(days, last - cur + 1, cur)
            &&& !occurs(days, last - cur)
            &&& is_longest_run(days, st.longest_streak as int)
            &&& absent_days(days, start_day).finite()
            &&& st.missed == absent_days(days, start_day).len()
        }),
{
    let n = days.len() as int;
    let i = n - 1;
    let st = stats_spec(days, start_day);
    let last = days.last() as int;
    lemma_run_bounds(days, i);
    lemma_longest_bounds(days, n);
    lemma_run_shape(days, i);
    let cur = run_at(days, i);
    assert(st.current_streak as int == cur);
    // The current streak.
    assert forall|j: int| 0 <= j < cur implies #[trigger] occurs(days, last - cur + 1 + j) by {
        let k = cur - 1 - j;
        assert(days[i - k] == days[i] - k);
    }
    if occurs(days, last - cur) {
        let k = choose|k: int| 0 <= k < days.len() && days[k] == last - cur;
        if k > i - cur {
            assert(days[i - (i - k)] == days[i] - (i - k));
        } else if k < i - cur {
            assert(days[k] < days[i - cur]);
        }
    }
    // The longest streak.
    let lg = longest_upto(days, n);
    assert(st.longest_streak as int == lg);
    lemma_longest_attained(days, n);
    let m = choose|m: int| 0 <= m < n && run_at(days, m) == lg;
    lemma_run_shape(days, m);
    lemma_run_bounds(days, m);
    assert(consecutive_in(days, days[m] - lg + 1, lg)) by {
        assert forall|j: int| 0 <= j < lg implies #[trigger] occurs(days, days[m] - lg + 1 + j) by {
            let k = lg - 1 - j;
            assert(days[m - k] == days[m] - k);
        }
    }
    assert forall|a: int, len: int| #[trigger] consecutive_in(days, a, len) implies len <= lg by {
        if len >= 1 {
            assert(occurs(days, a + (len - 1)));
            let p = choose|p: int| 0 <= p < days.len() && days[p] == a + (len - 1);
            lemma_window_in_run(days, a, len, p);
            lemma_longest_reaches(days, n, p);
        }
    }
    // Missed days.
    lemma_present_count(days, start_day);
    lemma_count_from_bounds(days, start_day);
    let pf = present_from(days, start_day);
    assert forall|d: int| pf.contains(d) implies d <= last by {
        let k = choose|k: int| 0 <= k < days.len() && days[k] == d;
        if k < i {
            assert(days[k] < days[i]);
        }
    }
    if last >= start_day {
        let range = vstd::set_lib::set_int_range(start_day as int, last + 1);
        vstd::set_lib::lemma_int_range(start_day as int, last + 1);
        assert(range.intersect(pf) =~= pf);
        vstd::set_lib::lemma_set_difference_len(range, pf);
        assert(range.difference(pf) =~= absent_days(days, start_day));
        assert(pf.len() <= range.len()) by {
            vstd::set_lib::lemma_len_subset(pf, range);
        }
    } else {
        assert(pf =~= Set::empty()) by {
            assert forall|d: int| !pf.contains(d) by {
                if pf.contains(d) {
                    assert(d <= last);
                }
            }
        }
        assert(absent_days(days, start_day) =~= Set::empty());
    }
}

/// Computes [`SeriesStats`] from `days`.
///
/// `days` must be sorted ascending and unique (as the repository returns
/// them). `start_day` is the series' configured first day; days below it
/// still count toward streaks but never toward `missed`.
pub fn compute(days: &[i64], start_day: i64) -> (r: SeriesStats)
    requires
        strictly_ascending(days@),
        days@.len() < i64::MAX,
        days@.len() > 0 ==> i64::MIN <= days@.last() - start_day && days@.last() - start_day + 1
            <= i64::MAX,
    ensures
        r == stats_spec(days@, start_day),
        days@.len() > 0 ==> {
            let last = days@.last() as int;
            &&& consecutive_in(days@, last - r.current_streak + 1, r.current_streak as int)
            &&& !occurs(days@, last - r.current_streak)
            &&& is_longest_run(days@, r.longest_streak as int)
            &&& r.missed == absent_days(days@, start_day).len()
        },
{
    if days.len() == 0 {
        return SeriesStats {
            total: 0,
            current_streak: 0,
            longest_streak: 0,
            missed: 0,
            max_day: None,
        };
    }
    let n = days.len();
    let max_day = days[n - 1];
    let mut longest: i64 = 0;
    let mut run: i64 = 0;
    let mut counted: i64 = 0;
    let mut i: usize = 0;
    while i < n
        invariant
            n == days@.len(),
            n > 0,
            n < i64::MAX,
            strictly_ascending(days@),
            0 <= i <= n,
            longest as int == longest_upto(days@, i as int),
            i > 0 ==> run as int == run_at(days@, i - 1),
            i == 0 ==> run == 0,
            counted as int == count_from(days@.take(i as int), start_day),
            0 <= longest <= i,
            0 <= run <= i,
            0 <= counted <= i,
        decreases n - i,
    {
        let d = days[i];
        proof {
            lemma_run_bounds(days@, i as int);
            lemma_longest_bounds(days@, i as int);
            lemma_longest_bounds(days@, i + 1);
            assert(days@.take(i + 1).drop_last() == days@.take(i as int));
        }
        if i > 0 && d == days[i - 1] + 1 {
            run = run + 1;
        } else {
            run = 1;
        }
        if run > longest {
            longest = run;
        }
        if d >= start_day {
            counted = counted + 1;
        }
        i += 1;
    }
    assert(days@.take(n as int) == days@);
    proof {
        lemma_count_from_bounds(days@, start_day);
        lemma_stats_meaning(days@, start_day);
    }
    let e = max_day - start_day + 1;
    let expected = if e > 0 {
        e
    } else {
        0
    };
    let m = expected - counted;
    let missed = if m > 0 {
        m
    } else {
        0
    };
    SeriesStats {
        total: n as i64,
        current_streak: run,
        longest_streak: longest,
        missed,
        max_day: Some(max_day),
    }
}

} // verus!
