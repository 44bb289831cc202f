//! Import/export: the migration safety net and backup story.
//!
//! The wire format is walpurgisbot-v2's export shape, a JSON array of
//! posts. On export, `media` carries leaf's object keys; on import, media
//! entries become `media_missing` placeholders whose bytes the migration
//! tool re-fetches later. JSON encoding itself is the caller's job; this
//! module holds the records and the rules that turn them into rows.

use vstd::prelude::*;

use crate::domain::{MediaAttachment, NewMediaAttachment, Post};
use crate::text::{int_dec, nat_dec, push_str, push_u64_dec};

verus! {

/// Import files larger than this are refused (24 MB, as v2 did).
pub const MAX_IMPORT_BYTES: u32 = 25165824;

/// One archived day in the transfer format (v2-compatible).
#[derive(Debug, Clone, PartialEq, Eq)]
pub struct TransferPost {
    /// Day number.
    pub day: i64,
    /// Source message snowflake.
    pub message_id: String,
    /// Source channel snowflake.
    pub channel_id: String,
    /// Creator snowflake (v2: the tracked user).
    pub user_id: String,
    /// Original post time, unix seconds.
    pub timestamp: i64,
    /// v2: attachment URLs (expired); leaf: object keys. Informational on
    /// import either way.
    pub media: Vec<String>,
}

/// Parse failure with the JSON path that caused it.
#[derive(Debug, Clone, PartialEq, Eq)]
pub struct TransferParseError {
    /// JSON path of the offending value.
    pub path: String,
    /// What went wrong there.
    pub message: String,
}

/// The text of a parse failure.
pub open spec fn parse_error_text(e: TransferParseError) -> Seq<char> {
    "invalid import file at `"@ + e.path@ + "`: "@ + e.message@
}

impl TransferParseError {
    /// The error's message (its `Display` text).
    pub fn text(&self) -> (r: String)
        ensures
            r@ == parse_error_text(*self),
    {
        let mut s = String::new();
        push_str(&mut s, "invalid import file at `");
        push_str(&mut s, self.path.as_str());
        push_str(&mut s, "`: ");
        push_str(&mut s, self.message.as_str());
        assert(s@ =~= parse_error_text(*self));
        s
    }
}

/// Whether an uploaded import file is over the size limit.
pub fn import_too_large(size: u32) -> (r: bool)
    ensures
        r == (size > MAX_IMPORT_BYTES),
{
    size > MAX_IMPORT_BYTES
}

/// The stored original keys of a day's media, in order; media recorded as
/// missing has none and is left out.
pub open spec fn kept_keys(media: Seq<MediaAttachment>) -> Seq<Seq<char>>
    decreases media.len(),
{
    if media.len() == 0 {
        Seq::empty()
    } else {
        let prev = kept_keys(media.drop_last());
        match media.last().original_key {
            Some(k) => prev.push(k@),
            None => prev,
        }
    }
}

/// The export record of one archived day: its post fields, the series
/// creator as the user, and the stored original keys as media.
pub fn export_entry(post: &Post, media: &Vec<MediaAttachment>, creator_id: &str) -> (r:
    TransferPost)
    ensures
        r.day == post.day,
        r.message_id@ == post.message_id@,
        r.channel_id@ == post.channel_id@,
        r.user_id@ == creator_id@,
        r.timestamp == post.posted_at,
        r.media@.map_values(|k: String| k@) == kept_keys(media@),
{
    let mut keys: Vec<String> = Vec::new();
    let mut i: usize = 0;
    while i < media.len()
        invariant
            i <= media.len(),
            keys@.map_values(|k: String| k@) == kept_keys(media@.take(i as int)),
        decreases media.len() - i,
    {
        assert(media@.take(i + 1).drop_last() == media@.take(i as int));
        match &media[i].original_key {
            Some(k) => {
                keys.push(k.clone());
            },
            None => {},
        }
        i = i + 1;
        assert(keys@.map_values(|k: String| k@) =~= kept_keys(media@.take(i as int)));
    }
    assert(media@.take(media.len() as int) == media@);
    TransferPost {
        day: post.day,
        message_id: post.message_id.clone(),
        channel_id: post.channel_id.clone(),
        user_id: creator_id.to_owned(),
        timestamp: post.posted_at,
        media: keys,
    }
}

/// How many of `posts` are for a day already in `existing`.
pub open spec fn collisions_upto(posts: Seq<TransferPost>, existing: Seq<i64>, n: int) -> int
    decreases n,
{
    if n <= 0 {
        0
    } else {
        collisions_upto(posts, existing, n - 1) + (if existing.contains(posts[n - 1].day) {
            1int
        } else {
            0int
        })
    }
}

/// Whether `d` is among `days`.
pub fn contains_day(days: &Vec<i64>, d: i64) -> (r: bool)
    ensures
        r == days@.contains(d),
{
    let mut i: usize = 0;
    while i < days.len()
        invariant
            i <= days.len(),
            forall|k: int| 0 <= k < i ==> days@[k] != d,
        decreases days.len() - i,
    {
        if days[i] == d {
            assert(days@[i as int] == d);
            return true;
        }
        i = i + 1;
    }
    false
}

/// The import dry-run counts: `(fresh, collisions)`, where a collision is a
/// post whose day is already archived (it will be skipped).
pub fn import_counts(posts: &Vec<TransferPost>, existing: &Vec<i64>) -> (r: (usize, usize))
    ensures
        r.1 == collisions_upto(posts@, existing@, posts.len() as int),
        r.0 + r.1 == posts.len(),
{
    let mut collisions: usize = 0;
    let mut i: usize = 0;
    while i < posts.len()
        invariant
            i <= posts.len(),
            collisions == collisions_upto(posts@, existing@, i as int),
            collisions <= i,
        decreases posts.len() - i,
    {
        if contains_day(existing, posts[i].day) {
            collisions = collisions + 1;
        }
        i = i + 1;
    }
    (posts.len() - collisions, collisions)
}

/// `import-<message_id>-<index>`: the placeholder attachment id of the
/// `index`-th media entry of an imported day.
pub open spec fn import_attachment_id(message_id: Seq<char>, index: nat) -> Seq<char> {
    "import-"@ + message_id + "-"@ + nat_dec(index)
}

/// The rows an imported day lands as: its post (empty caption, archived
/// now) and one `media_missing` placeholder per media entry.
pub fn import_rows(p: &TransferPost, series_id: i64, archived_at: i64) -> (r: (
    Post,
    Vec<NewMediaAttachment>,
))
    ensures
        r.0.series_id == series_id,
        r.0.day == p.day,
        r.0.message_id@ == p.message_id@,
        r.0.channel_id@ == p.channel_id@,
        r.0.caption@ == Seq::<char>::empty(),
        r.0.posted_at == p.timestamp,
        r.0.archived_at == archived_at,
        r.1.len() == p.media.len(),
        forall|i: int|
            0 <= i < r.1.len() ==> {
                let m = #[trigger] r.1@[i];
                &&& m.attachment_id@ == import_attachment_id(p.message_id@, i as nat)
                &&& m.channel_id@ == p.channel_id@
                &&& m.message_id@ == p.message_id@
                &&& m.content_type@ == Seq::<char>::empty()
                &&& m.original_key is None
                &&& m.thumb_key is None
                &&& m.media_missing
            },
{
    let mut media: Vec<NewMediaAttachment> = Vec::new();
    let mut i: usize = 0;
    while i < p.media.len()
        invariant
            i <= p.media.len(),
            media.len() == i,
            forall|k: int|
                0 <= k < i ==> {
                    let m = #[trigger] media@[k];
                    &&& m.attachment_id@ == import_attachment_id(p.message_id@, k as nat)
                    &&& m.channel_id@ == p.channel_id@
                    &&& m.message_id@ == p.message_id@
                    &&& m.content_type@ == Seq::<char>::empty()
                    &&& m.original_key is None
                    &&& m.thumb_key is None
                    &&& m.media_missing
                },
        decreases p.media.len() - i,
    {
        let mut id = String::new();
        push_str(&mut id, "import-");
        push_str(&mut id, p.message_id.as_str());
        push_str(&mut id, "-");
        push_u64_dec(&mut id, i as u64);
        assert(id@ =~= import_attachment_id(p.message_id@, i as nat));
        media.push(
            NewMediaAttachment {
                attachment_id: id,
                channel_id: p.channel_id.clone(),
                message_id: p.message_id.clone(),
                content_type: String::new(),
                original_key: None,
                thumb_key: None,
                media_missing: true,
            },
        );
        i = i + 1;
    }
    let post = Post {
        series_id,
        day: p.day,
        message_id: p.message_id.clone(),
        channel_id: p.channel_id.clone(),
        caption: String::new(),
        posted_at: p.timestamp,
        archived_at,
    };
    (post, media)
}

} // verus!
