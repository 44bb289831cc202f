//! The archive being imported: a v2 `SQLite` database or its JSON export.
//!
//! The two sources are told apart by content (not by file name), the rows
//! of the database's `posts` and `media_attachments` tables are paired into
//! transfer records, and the records are ordered by day. Reading the file
//! and querying the database are the caller's I/O.

use std::collections::HashMap;
use vstd::prelude::*;

use crate::domain::strs_view;
use crate::transfer::TransferPost;

verus! {

/// The 16 bytes every `SQLite` database file begins with
/// (`"SQLite format 3\0"`).
pub open spec fn sqlite_magic() -> Seq<u8> {
    seq![83u8, 81u8, 76u8, 105u8, 116u8, 101u8, 32u8, 102u8, 111u8, 114u8, 109u8, 97u8, 116u8, 32u8, 51u8, 0u8]
}

/// Whether a file's bytes are a `SQLite` database.
pub open spec fn is_sqlite_spec(bytes: Seq<u8>) -> bool {
    bytes.len() >= 16 && bytes.take(16) == sqlite_magic()
}

/// Whether a source file is a `SQLite` database (otherwise it is read as a
/// JSON export).
pub fn is_sqlite(bytes: &[u8]) -> (r: bool)
    ensures
        r == is_sqlite_spec(bytes@),
{
    let magic: [u8; 16] = [83, 81, 76, 105, 116, 101, 32, 102, 111, 114, 109, 97, 116, 32, 51, 0];
    assert(magic@ == sqlite_magic());
    if bytes.len() < 16 {
        return false;
    }
    let mut i: usize = 0;
    while i < 16
        invariant
            i <= 16,
            bytes@.len() >= 16,
            magic@ == sqlite_magic(),
            forall|k: int| 0 <= k < i ==> bytes@[k] == magic@[k],
        decreases 16 - i,
    {
        if bytes[i] != magic[i] {
            assert(bytes@.take(16)[i as int] != sqlite_magic()[i as int]);
            return false;
        }
        i = i + 1;
    }
    assert(bytes@.take(16) =~= sqlite_magic());
    true
}

/// One row of the v2 `posts` table.
#[derive(Debug, Clone)]
pub struct V2Post {
    /// Day number.
    pub day: i64,
    /// Source message snowflake.
    pub message_id: String,
    /// Source channel snowflake.
    pub channel_id: String,
    /// The tracked user's snowflake.
    pub user_id: String,
    /// Original post time, unix seconds.
    pub timestamp: i64,
}

/// One row of the v2 `media_attachments` table.
#[derive(Debug, Clone)]
pub struct V2Media {
    /// The day of the post it belongs to.
    pub post_day: i64,
    /// Its (long expired) CDN URL.
    pub url: String,
}

/// The URLs of the media rows of day `d`, in row order.
pub open spec fn urls_of_day(media: Seq<V2Media>, d: i64) -> Seq<Seq<char>>
    decreases media.len(),
{
    if media.len() == 0 {
        Seq::empty()
    } else {
        let prev = urls_of_day(media.drop_last(), d);
        if media.last().post_day == d {
            prev.push(media.last().url@)
        } else {
            prev
        }
    }
}

/// Some post before index `n` has day `d`.
pub open spec fn day_taken(posts: Seq<V2Post>, d: i64, n: int) -> bool {
    exists|j: int| 0 <= j < n && #[trigger] posts[j].day == d
}

/// The transfer record of post `i`: its fields, and the media of its day
/// (which go to the first post of that day).
pub open spec fn paired(posts: Seq<V2Post>, media: Seq<V2Media>, i: int, t: TransferPost) -> bool {
    let p = posts[i];
    &&& t.day == p.day
    &&& t.message_id@ == p.message_id@
    &&& t.channel_id@ == p.channel_id@
    &&& t.user_id@ == p.user_id@
    &&& t.timestamp == p.timestamp
    &&& strs_view(t.media@) == if day_taken(posts, p.day, i) {
        Seq::empty()
    } else {
        urls_of_day(media, p.day)
    }
}

/// Takes day `d`'s URLs out of the grouping (none when it has no entry).
fn take_day(groups: &mut HashMap<i64, Vec<String>>, d: i64) -> (r: Vec<String>)
    ensures
        final(groups)@ == old(groups)@.remove(d),
        r@ == if old(groups)@.contains_key(d) {
            old(groups)@[d]@
        } else {
            Seq::<String>::empty()
        },
{
    broadcast use vstd::std_specs::hash::group_hash_axioms;

    match groups.remove(&d) {
        Some(v) => v,
        None => Vec::new(),
    }
}

/// Files `urls` as day `d`'s URLs.
fn put_day(groups: &mut HashMap<i64, Vec<String>>, d: i64, urls: Vec<String>)
    ensures
        final(groups)@ == old(groups)@.insert(d, urls),
{
    broadcast use vstd::std_specs::hash::group_hash_axioms;

    groups.insert(d, urls);
}

/// The URLs a grouping files under day `d`: its entry, or none.
pub open spec fn filed_urls(groups: Map<i64, Vec<String>>, d: i64) -> Seq<Seq<char>> {
    if groups.contains_key(d) {
        strs_view(groups[d]@)
    } else {
        Seq::empty()
    }
}

/// Groups the media rows' URLs by day, each day's in row order.
fn group_by_day(media: &Vec<V2Media>) -> (r: HashMap<i64, Vec<String>>)
    ensures
        forall|d: i64| #[trigger] filed_urls(r@, d) == urls_of_day(media@, d),
{
    broadcast use vstd::std_specs::hash::group_hash_axioms;

    let mut groups: HashMap<i64, Vec<String>> = HashMap::new();
    assert forall|d: i64| #[trigger] filed_urls(groups@, d) == urls_of_day(media@.take(0), d) by {
        assert(media@.take(0).len() == 0);
    }
    let mut i: usize = 0;
    while i < media.len()
        invariant
            i <= media.len(),
            forall|d: i64| #[trigger] filed_urls(groups@, d) == urls_of_day(media@.take(i as int), d),
        decreases media.len() - i,
    {
        let row = &media[i];
        let ghost before = groups@;
        let mut urls = take_day(&mut groups, row.post_day);
        assert(strs_view(urls@) == filed_urls(before, row.post_day));
        urls.push(row.url.clone());
        put_day(&mut groups, row.post_day, urls);
        assert(media@.take(i + 1).drop_last() == media@.take(i as int));
        i = i + 1;
        assert forall|d: i64| #[trigger] filed_urls(groups@, d) == urls_of_day(media@.take(i as int), d) by {
            if d == media@[i - 1].post_day {
                assert(strs_view(groups@[d]@) =~= filed_urls(before, d).push(media@[i - 1].url@));
            } else {
                assert(filed_urls(groups@, d) == filed_urls(before, d));
            }
        }
    }
    assert(media@.take(media.len() as int) == media@);
    groups
}

/// Pairs the v2 post rows with their media rows, grouped by day, keeping
/// the posts' order.
pub fn posts_with_media(posts: &Vec<V2Post>, media: &Vec<V2Media>) -> (r: Vec<TransferPost>)
    ensures
        r.len() == posts.len(),
        forall|i: int| 0 <= i < r.len() ==> #[trigger] paired(posts@, media@, i, r@[i]),
{
    let mut groups = group_by_day(media);
    let mut out: Vec<TransferPost> = Vec::new();
    let mut i: usize = 0;
    while i < posts.len()
        invariant
            i <= posts.len(),
            out.len() == i,
            forall|k: int| 0 <= k < i ==> #[trigger] paired(posts@, media@, k, out@[k]),
            forall|d: i64| #[trigger] filed_urls(groups@, d) == if day_taken(posts@, d, i as int) {
                Seq::empty()
            } else {
                urls_of_day(media@, d)
            },
        decreases posts.len() - i,
    {
        let p = &posts[i];
        let ghost before = groups@;
        let urls = take_day(&mut groups, p.day);
        assert(strs_view(urls@) == filed_urls(before, p.day));
        let t = TransferPost {
            day: p.day,
            message_id: p.message_id.clone(),
            channel_id: p.channel_id.clone(),
            user_id: p.user_id.clone(),
            timestamp: p.timestamp,
            media: urls,
        };
        assert(paired(posts@, media@, i as int, t));
        out.push(t);
        i = i + 1;
        assert forall|d: i64| #[trigger] filed_urls(groups@, d) == if day_taken(posts@, d, i as int) {
            Seq::empty()
        } else {
            urls_of_day(media@, d)
        } by {
            if d == posts@[i - 1].day {
                assert(day_taken(posts@, d, i as int)) by {
                    assert(posts@[i - 1].day == d);
                }
                assert(filed_urls(groups@, d) =~= Seq::<Seq<char>>::empty());
            } else {
                assert(filed_urls(groups@, d) == filed_urls(before, d));
                assert(day_taken(posts@, d, i as int) == day_taken(posts@, d, i - 1)) by {
                    if day_taken(posts@, d, i as int) {
                        let w = choose|w: int| 0 <= w < i && #[trigger] posts@[w].day == d;
                        assert(w < i - 1);
                    }
                    if day_taken(posts@, d, i - 1) {
                        let w = choose|w: int| 0 <= w < i - 1 && #[trigger] posts@[w].day == d;
                        assert(posts@[w].day == d);
                    }
                }
            }
        }
    }
    out
}

/// The records are in day order.
pub open spec fn day_sorted(s: Seq<TransferPost>) -> bool {
    forall|i: int, j: int| 0 <= i <= j < s.len() ==> s[i].day <= s[j].day
}

/// Whether a record is of day `d`.
pub open spec fn day_is(d: i64) -> spec_fn(TransferPost) -> bool {
    |p: TransferPost| p.day == d
}

/// The records of day `d`, in their order.
pub open spec fn of_day(s: Seq<TransferPost>, d: i64) -> Seq<TransferPost> {
    s.filter(day_is(d))
}

proof fn lemma_filter_single(x: TransferPost, d: i64)
    ensures
        seq![x].filter(day_is(d)) == if x.day == d {
            seq![x]
        } else {
            Seq::<TransferPost>::empty()
        },
{
    Seq::<TransferPost>::empty().lemma_filter_prepend(x, day_is(d));
    reveal(Seq::filter);
    assert(seq![x] + Seq::<TransferPost>::empty() =~= seq![x]);
}

/// Inserting `x` after every record of an earlier day adds it to the end
/// of its own day's records and leaves other days alone.
proof fn lemma_insert_keeps_days(before: Seq<TransferPost>, k: int, x: TransferPost, d: i64)
    requires
        0 <= k <= before.len(),
        forall|m: int| 0 <= m < k ==> #[trigger] before[m].day < x.day,
    ensures
        of_day(before.insert(k, x), d) == if x.day == d {
            seq![x] + of_day(before, d)
        } else {
            of_day(before, d)
        },
{
    let f = day_is(d);
    let pre = before.take(k);
    let post = before.skip(k);
    assert(before.insert(k, x) =~= (pre + seq![x]) + post);
    assert(before =~= pre + post);
    Seq::filter_distributes_over_add(pre + seq![x], post, f);
    Seq::filter_distributes_over_add(pre, seq![x], f);
    Seq::filter_distributes_over_add(pre, post, f);
    lemma_filter_single(x, d);
    if x.day == d {
        assert(pre.all(|y: TransferPost| !f(y))) by {
            assert forall|m: int| 0 <= m < pre.len() implies !f(#[trigger] pre[m]) by {
                assert(pre[m] == before[m]);
            }
        }
        pre.lemma_all_neg_filter_empty(f);
        assert(pre.filter(f) =~= Seq::<TransferPost>::empty());
        assert(of_day(before.insert(k, x), d) =~= seq![x] + post.filter(f));
        assert(of_day(before, d) =~= post.filter(f));
    } else {
        assert(of_day(before.insert(k, x), d) =~= pre.filter(f) + post.filter(f));
    }
}

/// Orders the records by day; records of the same day keep their order.
pub fn sort_by_day(posts: Vec<TransferPost>) -> (r: Vec<TransferPost>)
    ensures
        r.len() == posts.len(),
        day_sorted(r@),
        forall|d: i64| #[trigger] of_day(r@, d) == of_day(posts@, d),
{
    let ghost all = posts@;
    let mut rest = posts;
    let mut sorted: Vec<TransferPost> = Vec::new();
    assert(all.skip(all.len() as int) =~= Seq::<TransferPost>::empty());
    assert forall|d: i64| #[trigger] of_day(sorted@, d) == of_day(all.skip(rest.len() as int), d) by {
        reveal(Seq::filter);
    }
    while rest.len() > 0
        invariant
            rest@ == all.take(rest.len() as int),
            rest.len() <= all.len(),
            sorted.len() + rest.len() == all.len(),
            day_sorted(sorted@),
            forall|d: i64| #[trigger] of_day(sorted@, d) == of_day(all.skip(rest.len() as int), d),
        decreases rest.len(),
    {
        let ghost n = rest.len() as int;
        let x = rest.pop().unwrap();
        assert(x == all[n - 1]);
        assert(rest@ =~= all.take(n - 1));
        let mut k: usize = 0;
        while k < sorted.len() && sorted[k].day < x.day
            invariant
                k <= sorted.len(),
                forall|m: int| 0 <= m < k ==> #[trigger] sorted@[m].day < x.day,
            decreases sorted.len() - k,
        {
            k = k + 1;
        }
        let ghost before = sorted@;
        assert(forall|m: int| k <= m < before.len() ==> #[trigger] before[m].day >= x.day) by {
            if k < before.len() {
                assert(before[k as int].day >= x.day);
            }
        }
        sorted.insert(k, x);
        proof {
            let after = sorted@;
            assert(after == before.insert(k as int, x));
            assert(all.skip(n - 1) =~= seq![x] + all.skip(n));
            assert forall|i: int, j: int| 0 <= i <= j < after.len() implies after[i].day <= after[j].day by {
                if i < k && j > k {
                    assert(after[j] == before[j - 1]);
                } else if i == k && j > k {
                    assert(after[j] == before[j - 1]);
                } else if i > k {
                    assert(after[i] == before[i - 1]);
                    assert(after[j] == before[j - 1]);
                }
            }
            assert forall|d: i64| #[trigger] of_day(after, d) == of_day(all.skip(n - 1), d) by {
                lemma_insert_keeps_days(before, k as int, x, d);
                all.skip(n).lemma_filter_prepend(x, day_is(d));
                assert(of_day(before, d) == of_day(all.skip(n), d));
            }
        }
    }
    assert(all.skip(0) =~= all);
    sorted
}

} // verus!
