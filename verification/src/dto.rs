//! Response shapes the embedded app consumes, built from domain types.
//!
//! Media is referenced by signed relative API paths only (never raw Discord
//! or storage URLs), so the frontend stays inside Discord's CSP.

use vstd::prelude::*;

use crate::auth::{MediaSigner, media_sig, media_url, thumb_url};
use crate::domain::{MediaAttachment, Post, Series};
use crate::stats::SeriesStats;
use crate::text::push_str;

verus! {

/// A series as the gallery lists it.
#[derive(Debug, PartialEq, Eq)]
pub struct SeriesDto {
    /// Database id (used in subsequent paths).
    pub id: i64,
    /// Display name.
    pub name: String,
    /// Free-text description.
    pub description: String,
    /// Creator snowflake.
    pub creator_id: String,
    /// `daily` / `weekdays` / `weekly` / `freeform`.
    pub cadence: String,
    /// Reaction emoji.
    pub emoji: String,
    /// Highest archived day, if any.
    pub max_day: Option<i64>,
}

impl SeriesDto {
    /// Builds a list entry, attaching the series' current max day.
    pub fn from_series(s: &Series, max_day: Option<i64>) -> (r: SeriesDto)
        ensures
            r.id == s.id,
            r.name@ == s.name@,
            r.description@ == s.description@,
            r.creator_id@ == s.creator_id@,
            r.cadence@ == s.cadence.text(),
            r.emoji@ == s.emoji@,
            r.max_day == max_day,
    {
        SeriesDto {
            id: s.id,
            name: s.name.clone(),
            description: s.description.clone(),
            creator_id: s.creator_id.clone(),
            cadence: s.cadence.as_str().to_owned(),
            emoji: s.emoji.clone(),
            max_day,
        }
    }
}

/// One media file, referenced by proxied API paths only.
#[derive(Debug, PartialEq, Eq)]
pub struct MediaDto {
    /// Full-size: `/api/media/{attachment_id}?exp=…&sig=…`.
    pub url: String,
    /// Thumbnail: `/api/media/{attachment_id}?thumb=1&exp=…&sig=…`.
    pub thumb_url: String,
    /// MIME type.
    pub content_type: String,
    /// True when the bytes were never captured (imported placeholder).
    pub missing: bool,
}

/// `m` shows attachment `a` through the signer's URLs.
pub open spec fn media_dto_of(m: MediaDto, a: MediaAttachment, key: Seq<u8>, exp: i64) -> bool {
    &&& m.url@ == media_url(a.attachment_id@, exp, media_sig(key, a.attachment_id@, exp))
    &&& m.thumb_url@ == thumb_url(a.attachment_id@, exp, media_sig(key, a.attachment_id@, exp))
    &&& m.content_type@ == a.content_type@
    &&& m.missing == a.media_missing
}

impl MediaDto {
    /// The view of one attachment: signed full and thumbnail paths, its
    /// type, and whether it is a missing placeholder.
    pub fn from_attachment(m: &MediaAttachment, signer: &MediaSigner<'_>) -> (r: MediaDto)
        ensures
            media_dto_of(r, *m, signer.key_view(), signer.expiry()),
    {
        let (url, thumb_url) = signer.urls(m.attachment_id.as_str());
        MediaDto { url, thumb_url, content_type: m.content_type.clone(), missing: m.media_missing }
    }
}

/// One archived day with its media.
#[derive(Debug, PartialEq, Eq)]
pub struct DayDto {
    /// Day number.
    pub day: i64,
    /// Caption (original message text).
    pub caption: String,
    /// Original post time, unix seconds.
    pub posted_at: i64,
    /// Jump link to the source message.
    pub jump_url: String,
    /// Attached media.
    pub media: Vec<MediaDto>,
}

/// The Discord jump link of a message.
pub open spec fn jump_url(guild_id: Seq<char>, channel_id: Seq<char>, message_id: Seq<char>) -> Seq<char> {
    "https://discord.com/channels/"@ + guild_id + "/"@ + channel_id + "/"@ + message_id
}

impl DayDto {
    /// Builds a day view. `guild_id` forms the jump URL; `signer` produces
    /// the signed media URLs.
    pub fn build(guild_id: &str, post: &Post, media: &[MediaAttachment], signer: &MediaSigner<'_>) -> (r: DayDto)
        ensures
            r.day == post.day,
            r.caption@ == post.caption@,
            r.posted_at == post.posted_at,
            r.jump_url@ == jump_url(guild_id@, post.channel_id@, post.message_id@),
            r.media.len() == media.len(),
            forall|i: int| 0 <= i < media.len() ==> media_dto_of(#[trigger] r.media@[i], media@[i], signer.key_view(), signer.expiry()),
    {
        let mut jump = String::new();
        push_str(&mut jump, "https://discord.com/channels/");
        push_str(&mut jump, guild_id);
        push_str(&mut jump, "/");
        push_str(&mut jump, post.channel_id.as_str());
        push_str(&mut jump, "/");
        push_str(&mut jump, post.message_id.as_str());
        assert(jump@ =~= jump_url(guild_id@, post.channel_id@, post.message_id@));
        let mut out: Vec<MediaDto> = Vec::new();
        let mut i: usize = 0;
        while i < media.len()
            invariant
                i <= media.len(),
                out.len() == i,
                forall|k: int| 0 <= k < i ==> media_dto_of(#[trigger] out@[k], media@[k], signer.key_view(), signer.expiry()),
            decreases media.len() - i,
        {
            out.push(MediaDto::from_attachment(&media[i], signer));
            i = i + 1;
        }
        DayDto { day: post.day, caption: post.caption.clone(), posted_at: post.posted_at, jump_url: jump, media: out }
    }
}

/// A day's headline within a paginated list: the grid tile (first
/// attachment's signed thumbnail) plus the day number.
#[derive(Debug, PartialEq, Eq)]
pub struct DaySummaryDto {
    /// Day number.
    pub day: i64,
    /// First attachment's signed thumbnail URL, if any.
    pub thumb_url: Option<String>,
}

impl DaySummaryDto {
    /// Builds a grid entry from the day's first attachment (if any).
    pub fn build(day: i64, first: Option<&MediaAttachment>, signer: &MediaSigner<'_>) -> (r: DaySummaryDto)
        ensures
            r.day == day,
            match first {
                Some(m) => r.thumb_url matches Some(t) && t@ == thumb_url(m.attachment_id@, signer.expiry(), media_sig(signer.key_view(), m.attachment_id@, signer.expiry())),
                None => r.thumb_url is None,
            },
    {
        let thumb = match first {
            Some(m) => {
                let (_, t) = signer.urls(m.attachment_id.as_str());
                Some(t)
            },
            None => None,
        };
        DaySummaryDto { day, thumb_url: thumb }
    }
}

/// Aggregate stats for the stats panel.
#[derive(Debug, PartialEq, Eq)]
pub struct StatsDto {
    /// Total archived days.
    pub total: i64,
    /// Current consecutive-day streak.
    pub current_streak: i64,
    /// Longest consecutive-day streak.
    pub longest_streak: i64,
    /// Days missed within `[start_day, max_day]`.
    pub missed: i64,
    /// Highest archived day.
    pub max_day: Option<i64>,
}

impl From<SeriesStats> for StatsDto {
    fn from(s: SeriesStats) -> (r: StatsDto) {
        StatsDto {
            total: s.total,
            current_streak: s.current_streak,
            longest_streak: s.longest_streak,
            missed: s.missed,
            max_day: s.max_day,
        }
    }
}

impl vstd::std_specs::convert::FromSpecImpl<SeriesStats> for StatsDto {
    open spec fn obeys_from_spec() -> bool {
        true
    }

    open spec fn from_spec(s: SeriesStats) -> StatsDto {
        StatsDto {
            total: s.total,
            current_streak: s.current_streak,
            longest_streak: s.longest_streak,
            missed: s.missed,
            max_day: s.max_day,
        }
    }
}

} // verus!
