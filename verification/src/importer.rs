//! The migration importer's decisions: which days to import, what rows a
//! day lands as when its source message is present or gone, how each
//! outcome is tallied, and the gaps report.
//!
//! The caller performs the I/O (reading the source archive, fetching the
//! live message, archiving media, inserting rows) and hands each result to
//! these functions. Re-running an import is the resume mechanism: present
//! days are skipped, fetch failures are deferred rather than recorded.

use std::collections::BTreeSet;
use vstd::prelude::*;

use crate::store::DbError;

use crate::domain::{
    Cadence, DetectionMode, NewMediaAttachment, NewSeries, Post, Privacy, SeriesState,
};
use crate::mapping::{
    content_type_for_ext, extension, guess_content_type, leaf_day, leaf_day_spec,
    missing_attachment_from_url, missing_attachment_live, missing_identity, stored_attachment,
};
use crate::media::{MediaError, StoredMedia, media_error_text};
use crate::domain::{clone_strings, strs_view};
use crate::text::{TextOrder, chars_of, lemma_lex_trans, lex_lt, lex_order, int_dec, lower_seq, nat_dec, push_char, push_i64_dec, push_str, push_u64_dec};
use crate::transfer::TransferPost;

verus! {

/// Inputs that come from the command line rather than the source archive.
#[derive(Debug, Clone)]
pub struct ImportConfig {
    /// Target guild snowflake.
    pub guild_id: String,
    /// Creator (owner) snowflake for the imported series.
    pub creator_id: String,
    /// Name of the series to create or reuse.
    pub series_name: String,
    /// Explicit watched channels for the series; when empty, the distinct
    /// channels seen in the source are used.
    pub series_channels: Vec<String>,
    /// Offset added to every v2 day number (`--day-offset`).
    pub day_offset: i64,
}

/// Why a particular day needs manual follow-up after the import.
#[derive(Debug, Clone, Copy, PartialEq, Eq, Structural)]
pub enum GapReason {
    /// The source message was deleted; media was recorded as missing
    /// placeholders recovered from v2's stored URLs.
    MessageDeleted,
    /// The message was fetched, but an attachment could not be downloaded or
    /// transformed; recorded as a missing placeholder.
    MediaUnfetchable,
    /// The message could not be fetched due to a transient/unknown error; the
    /// day was left unimported so a re-run retries it.
    FetchDeferred,
    /// The message is gone and the source held no recoverable media URLs.
    NoMediaRecovered,
}

/// The stable label of a gap reason.
pub open spec fn reason_text(r: GapReason) -> Seq<char> {
    match r {
        GapReason::MessageDeleted => "message_deleted"@,
        GapReason::MediaUnfetchable => "media_unfetchable"@,
        GapReason::FetchDeferred => "fetch_deferred"@,
        GapReason::NoMediaRecovered => "no_media_recovered"@,
    }
}

impl GapReason {
    /// Stable machine-readable label (used in the gaps report).
    pub fn as_str(self) -> (r: &'static str)
        ensures
            r@ == reason_text(self),
    {
        match self {
            GapReason::MessageDeleted => "message_deleted",
            GapReason::MediaUnfetchable => "media_unfetchable",
            GapReason::FetchDeferred => "fetch_deferred",
            GapReason::NoMediaRecovered => "no_media_recovered",
        }
    }
}

/// One day that did not import cleanly.
#[derive(Debug, Clone, PartialEq, Eq)]
pub struct Gap {
    /// Leaf day number.
    pub day: i64,
    /// Source message snowflake.
    pub message_id: String,
    /// Category of the gap.
    pub reason: GapReason,
    /// Human-readable explanation.
    pub detail: String,
}

impl View for Gap {
    type V = (i64, Seq<char>, GapReason, Seq<char>);

    open spec fn view(&self) -> (i64, Seq<char>, GapReason, Seq<char>) {
        (self.day, self.message_id@, self.reason, self.detail@)
    }
}

/// The views of a list of gaps.
pub open spec fn gaps_view(g: Seq<Gap>) -> Seq<(i64, Seq<char>, GapReason, Seq<char>)> {
    g.map_values(|x: Gap| x@)
}

/// One attachment as Discord currently reports it, with a resolved content
/// type.
#[derive(Debug, Clone)]
pub struct FetchedAttachment {
    /// Discord attachment snowflake.
    pub id: String,
    /// MIME type (resolved; never empty).
    pub content_type: String,
    /// Freshly-signed CDN URL the bytes can be downloaded from.
    pub url: String,
}

/// A message fetched fresh from Discord: its caption and live attachments.
#[derive(Debug, Clone)]
pub struct FetchedMessage {
    /// Message content, used as the archived caption.
    pub content: String,
    /// Live attachments with usable download URLs.
    pub attachments: Vec<FetchedAttachment>,
}

/// The content type recorded for a live attachment: Discord's when it gave
/// a non-empty one, else a guess from the filename.
pub open spec fn resolved_type(content_type: Option<Seq<char>>, filename: Seq<char>) -> Seq<char> {
    match content_type {
        Some(c) => if c.len() > 0 {
            c
        } else {
            content_type_for_ext(lower_seq(extension(filename)))
        },
        None => content_type_for_ext(lower_seq(extension(filename))),
    }
}

/// An attachment as reported by Discord, with its content type resolved.
pub fn fetched_attachment(id: String, filename: &str, content_type: Option<String>, url: String) -> (r:
    FetchedAttachment)
    ensures
        r.id == id,
        r.url == url,
        r.content_type@ == resolved_type(
            match content_type {
                Some(c) => Some(c@),
                None => None,
            },
            filename@,
        ),
{
    let ct = match content_type {
        Some(c) => if !c.as_str().is_empty() {
            c
        } else {
            guess_content_type(filename)
        },
        None => guess_content_type(filename),
    };
    FetchedAttachment { id, content_type: ct, url }
}

/// What an import (or plan) did. Counts are days unless noted.
#[derive(Debug, Clone, PartialEq, Eq)]
pub struct Summary {
    /// Id of the created/reused series (0 in a dry run that found none).
    pub series_id: i64,
    /// Total posts in the source archive.
    pub total_source: usize,
    /// Days written (or, in a dry run, that would be written).
    pub imported: usize,
    /// Days skipped because they were already present.
    pub skipped_existing: usize,
    /// Days left unwritten after a transient fetch error (retry on re-run).
    pub deferred: usize,
    /// Attachments fetched and stored in R2.
    pub media_stored: usize,
    /// Attachments recorded as missing placeholders.
    pub media_missing: usize,
    /// Per-day follow-ups for the gaps report.
    pub gaps: Vec<Gap>,
}

impl Summary {
    /// A summary with nothing counted yet.
    pub fn new(series_id: i64, total_source: usize) -> (r: Summary)
        ensures
            r.series_id == series_id,
            r.total_source == total_source,
            r.imported == 0,
            r.skipped_existing == 0,
            r.deferred == 0,
            r.media_stored == 0,
            r.media_missing == 0,
            r.gaps@.len() == 0,
    {
        Summary {
            series_id,
            total_source,
            imported: 0,
            skipped_existing: 0,
            deferred: 0,
            media_stored: 0,
            media_missing: 0,
            gaps: Vec::new(),
        }
    }
}

impl Default for Summary {
    fn default() -> (r: Summary)
        ensures
            r.series_id == 0,
            r.total_source == 0,
            r.imported == 0,
            r.skipped_existing == 0,
            r.deferred == 0,
            r.media_stored == 0,
            r.media_missing == 0,
            r.gaps@.len() == 0,
    {
        Summary::new(0, 0)
    }
}

// ---------------------------------------------------------------------
// The gaps report
// ---------------------------------------------------------------------

/// A value escaped for a Markdown table cell: `|` becomes `\|`, and line
/// breaks become spaces.
pub open spec fn sanitize_spec(s: Seq<char>) -> Seq<char>
    decreases s.len(),
{
    if s.len() == 0 {
        Seq::empty()
    } else {
        let c = s.last();
        let prev = sanitize_spec(s.drop_last());
        if c == '|' {
            prev + seq!['\\', '|']
        } else if c == '\n' || c == '\r' {
            prev.push(' ')
        } else {
            prev.push(c)
        }
    }
}

/// Escapes a value for a Markdown table cell.
pub fn sanitize_cell(s: &str) -> (r: String)
    ensures
        r@ == sanitize_spec(s@),
{
    let v = crate::text::chars_of(s);
    let mut out = String::new();
    let mut i: usize = 0;
    while i < v.len()
        invariant
            i <= v.len(),
            v@ == s@,
            out@ == sanitize_spec(v@.take(i as int)),
        decreases v.len() - i,
    {
        let c = v[i];
        assert(v@.take(i + 1).drop_last() == v@.take(i as int));
        if c == '|' {
            push_char(&mut out, '\\');
            push_char(&mut out, '|');
        } else if c == '\n' || c == '\r' {
            push_char(&mut out, ' ');
        } else {
            push_char(&mut out, c);
        }
        i = i + 1;
        assert(out@ =~= sanitize_spec(v@.take(i as int)));
    }
    assert(v@.take(v.len() as int) == v@);
    out
}

/// One table row of the gaps report.
pub open spec fn gap_row(g: (i64, Seq<char>, GapReason, Seq<char>)) -> Seq<char> {
    "| "@ + int_dec(g.0 as int) + " | "@ + g.1 + " | "@ + reason_text(g.2) + " | "@ + sanitize_spec(
        g.3,
    ) + " |\n"@
}

/// The table rows of the gaps report, in order.
pub open spec fn gap_rows(g: Seq<(i64, Seq<char>, GapReason, Seq<char>)>) -> Seq<char>
    decreases g.len(),
{
    if g.len() == 0 {
        Seq::empty()
    } else {
        gap_rows(g.drop_last()) + gap_row(g.last())
    }
}

/// The gaps report as Markdown.
pub open spec fn gaps_markdown(series_name: Seq<char>, g: Seq<(i64, Seq<char>, GapReason, Seq<char>)>) -> Seq<char> {
    let head = "# leaf-migrate gaps report — "@ + series_name + "\n\n"@;
    if g.len() == 0 {
        head + "No gaps: every imported day kept all of its media.\n"@
    } else {
        head + nat_dec(g.len()) + " gap(s) need follow-up.\n\n"@
            + "| day | message_id | reason | detail |\n"@ + "| --- | --- | --- | --- |\n"@
            + gap_rows(g)
    }
}

/// Renders the gaps report as Markdown.
pub fn render_gaps_markdown(series_name: &str, gaps: &[Gap]) -> (r: String)
    ensures
        r@ == gaps_markdown(series_name@, gaps@.map_values(|x: Gap| x@)),
{
    let ghost g = gaps@.map_values(|x: Gap| x@);
    let mut out = String::new();
    push_str(&mut out, "# leaf-migrate gaps report — ");
    push_str(&mut out, series_name);
    push_str(&mut out, "\n\n");
    if gaps.len() == 0 {
        push_str(&mut out, "No gaps: every imported day kept all of its media.\n");
        assert(out@ =~= gaps_markdown(series_name@, g));
        return out;
    }
    push_u64_dec(&mut out, gaps.len() as u64);
    push_str(&mut out, " gap(s) need follow-up.\n\n");
    push_str(&mut out, "| day | message_id | reason | detail |\n");
    push_str(&mut out, "| --- | --- | --- | --- |\n");
    let ghost head = out@;
    let mut i: usize = 0;
    while i < gaps.len()
        invariant
            i <= gaps.len(),
            g == gaps@.map_values(|x: Gap| x@),
            out@ == head + gap_rows(g.take(i as int)),
        decreases gaps.len() - i,
    {
        let gp = &gaps[i];
        let ghost before = out@;
        push_str(&mut out, "| ");
        push_i64_dec(&mut out, gp.day);
        push_str(&mut out, " | ");
        push_str(&mut out, gp.message_id.as_str());
        push_str(&mut out, " | ");
        push_str(&mut out, gp.reason.as_str());
        push_str(&mut out, " | ");
        let cell = sanitize_cell(gp.detail.as_str());
        push_str(&mut out, cell.as_str());
        push_str(&mut out, " |\n");
        assert(out@ =~= before + gap_row(g[i as int]));
        assert(g.take(i + 1).drop_last() == g.take(i as int));
        i = i + 1;
    }
    assert(g.take(gaps.len() as int) == g);
    assert(out@ =~= gaps_markdown(series_name@, g));
    out
}

// ---------------------------------------------------------------------
// The imported series
// ---------------------------------------------------------------------

/// The channel `c` is the channel of one of the first `n` source posts.
pub open spec fn channel_seen(source: Seq<TransferPost>, c: Seq<char>, n: int) -> bool {
    exists|k: int| 0 <= k < n && #[trigger] source[k].channel_id@ == c
}

/// Strictly ascending in lexicographic order (sorted, no duplicates).
pub open spec fn sorted_distinct(v: Seq<Seq<char>>) -> bool {
    forall|i: int, j: int| 0 <= i < j < v.len() ==> lex_lt(#[trigger] v[i], #[trigger] v[j])
}

proof fn lemma_insert_contains<A>(s: Seq<A>, pos: int, x: A)
    requires
        0 <= pos <= s.len(),
    ensures
        forall|c: A| #[trigger] s.insert(pos, x).contains(c) <==> (s.contains(c) || c == x),
{
    let t = s.insert(pos, x);
    assert forall|c: A| #[trigger] t.contains(c) <==> (s.contains(c) || c == x) by {
        if t.contains(c) {
            let k = choose|k: int| 0 <= k < t.len() && t[k] == c;
            if k < pos {
                assert(s[k] == c);
            } else if k > pos {
                assert(s[k - 1] == c);
            }
        }
        if s.contains(c) {
            let k = choose|k: int| 0 <= k < s.len() && s[k] == c;
            if k < pos {
                assert(t[k] == c);
            } else {
                assert(t[k + 1] == c);
            }
        }
        if c == x {
            assert(t[pos] == c);
        }
    }
}

/// The series' watched channels: the explicit command-line set if given,
/// else the distinct channels the source posts came from, in ascending
/// order.
pub fn resolve_channels(source: &[TransferPost], cfg: &ImportConfig) -> (r: Vec<String>)
    ensures
        cfg.series_channels.len() > 0 ==> strs_view(r@) == strs_view(cfg.series_channels@),
        cfg.series_channels.len() == 0 ==> sorted_distinct(strs_view(r@)) && forall|c: Seq<char>|
            #[trigger] strs_view(r@).contains(c) <==> channel_seen(source@, c, source.len() as int),
{
    if cfg.series_channels.len() > 0 {
        return clone_strings(&cfg.series_channels);
    }
    let mut v: Vec<String> = Vec::new();
    let mut i: usize = 0;
    while i < source.len()
        invariant
            i <= source.len(),
            sorted_distinct(strs_view(v@)),
            forall|c: Seq<char>| #[trigger]
                strs_view(v@).contains(c) <==> channel_seen(source@, c, i as int),
        decreases source.len() - i,
    {
        let x = source[i].channel_id.clone();
        let xc = chars_of(x.as_str());
        let ghost vs = strs_view(v@);
        let mut pos: usize = 0;
        let mut same = false;
        while pos < v.len()
            invariant_except_break
                !same,
            invariant
                pos <= v.len(),
                vs == strs_view(v@),
                xc@ == x@,
                forall|k: int| 0 <= k < pos ==> lex_lt(#[trigger] vs[k], x@),
            ensures
                same ==> pos < v.len() && vs[pos as int] == x@,
                !same ==> pos == v.len() || lex_lt(x@, vs[pos as int]),
            decreases v.len() - pos,
        {
            let yc = chars_of(v[pos].as_str());
            match lex_order(yc.as_slice(), xc.as_slice()) {
                TextOrder::Before => {
                    pos = pos + 1;
                },
                TextOrder::Same => {
                    same = true;
                    break;
                },
                TextOrder::After => {
                    break;
                },
            }
        }
        proof {
            assert forall|c: Seq<char>| channel_seen(source@, c, i + 1) <==> (channel_seen(
                source@,
                c,
                i as int,
            ) || c == x@) by {
                if channel_seen(source@, c, i + 1) {
                    let k = choose|k: int| 0 <= k < i + 1 && #[trigger] source@[k].channel_id@ == c;
                    if k < i {
                        assert(channel_seen(source@, c, i as int));
                    }
                }
                if channel_seen(source@, c, i as int) {
                    let k = choose|k: int| 0 <= k < i && #[trigger] source@[k].channel_id@ == c;
                    assert(source@[k].channel_id@ == c);
                }
                if c == x@ {
                    assert(source@[i as int].channel_id@ == c);
                }
            }
        }
        if same {
            proof {
                assert(vs[pos as int] == x@);
                assert(vs.contains(x@));
            }
        } else {
            proof {
                if pos < v.len() {
                    assert(lex_lt(x@, vs[pos as int]));
                }
            }
            let ghost old_v = v@;
            v.insert(pos, x);
            proof {
                let nv = strs_view(v@);
                assert(nv =~= vs.insert(pos as int, x@));
                lemma_insert_contains(vs, pos as int, x@);
                assert forall|a: int, b: int| 0 <= a < b < nv.len() implies lex_lt(
                    #[trigger] nv[a],
                    #[trigger] nv[b],
                ) by {
                    if b < pos {
                    } else if b == pos {
                    } else if a < pos {
                        if pos < vs.len() {
                            assert(lex_lt(x@, vs[pos as int]));
                        }
                        if b - 1 > pos {
                            lemma_lex_trans(x@, vs[pos as int], vs[b - 1]);
                        }
                        lemma_lex_trans(vs[a], x@, vs[b - 1]);
                    } else if a == pos {
                        if b - 1 > pos {
                            lemma_lex_trans(x@, vs[pos as int], vs[b - 1]);
                        }
                    } else {
                        assert(nv[a] == vs[a - 1]);
                        assert(nv[b] == vs[b - 1]);
                    }
                }
            }
        }
        i = i + 1;
    }
    v
}

/// The lowest leaf day among the first `n` source posts (`None` if `n` is 0).
pub open spec fn min_leaf_day(source: Seq<TransferPost>, offset: i64, n: int) -> Option<i64>
    decreases n,
{
    if n <= 0 {
        None
    } else {
        let d = leaf_day_spec(source[n - 1].day, offset);
        match min_leaf_day(source, offset, n - 1) {
            Some(m) => Some(if d < m {
                d
            } else {
                m
            }),
            None => Some(d),
        }
    }
}

/// The day a newly created import series starts at: the lowest leaf day in
/// the source, or 1 for an empty source.
pub fn import_start_day(source: &[TransferPost], offset: i64) -> (r: i64)
    ensures
        r == match min_leaf_day(source@, offset, source.len() as int) {
            Some(m) => m,
            None => 1,
        },
{
    let mut best: Option<i64> = None;
    let mut i: usize = 0;
    while i < source.len()
        invariant
            i <= source.len(),
            best == min_leaf_day(source@, offset, i as int),
        decreases source.len() - i,
    {
        let d = leaf_day(source[i].day, offset);
        best = match best {
            Some(m) => Some(if d < m {
                d
            } else {
                m
            }),
            None => Some(d),
        };
        i = i + 1;
    }
    match best {
        Some(m) => m,
        None => 1,
    }
}

/// The series an import creates when none of that name exists: an
/// established archive (Active, Public, Daily, context-menu capture), not
/// a sprout.
pub fn new_import_series(source: &[TransferPost], cfg: &ImportConfig) -> (r: NewSeries)
    ensures
        r.guild_id@ == cfg.guild_id@,
        r.creator_id@ == cfg.creator_id@,
        r.name@ == cfg.series_name@,
        r.description@ == Seq::<char>::empty(),
        cfg.series_channels.len() > 0 ==> strs_view(r.channels@) == strs_view(cfg.series_channels@),
        cfg.series_channels.len() == 0 ==> sorted_distinct(strs_view(r.channels@)) && forall|
            c: Seq<char>,
        | #[trigger] strs_view(r.channels@).contains(c) <==> channel_seen(
            source@,
            c,
            source.len() as int,
        ),
        r.cadence == Cadence::Daily,
        r.detection_mode == DetectionMode::ContextMenu,
        r.privacy == Privacy::Public,
        r.privacy_role_id is None,
        r.start_day == match min_leaf_day(source@, cfg.day_offset, source.len() as int) {
            Some(m) => m,
            None => 1,
        },
        r.state == SeriesState::Active,
{
    NewSeries {
        guild_id: cfg.guild_id.clone(),
        creator_id: cfg.creator_id.clone(),
        name: cfg.series_name.clone(),
        description: String::new(),
        channels: resolve_channels(source, cfg),
        cadence: Cadence::Daily,
        detection_mode: DetectionMode::ContextMenu,
        privacy: Privacy::Public,
        privacy_role_id: None,
        start_day: import_start_day(source, cfg.day_offset),
        state: SeriesState::Active,
    }
}

// ---------------------------------------------------------------------
// Planning
// ---------------------------------------------------------------------

/// The gap a dry run flags for a day whose source carries no media URLs.
pub open spec fn no_media_gap(day: i64, message_id: Seq<char>) -> (i64, Seq<char>, GapReason, Seq<char>) {
    (day, message_id, GapReason::NoMediaRecovered, "source has no media URLs for this day"@)
}

/// How many of the first `n` source posts are for days not yet archived.
pub open spec fn plan_imported(source: Seq<TransferPost>, offset: i64, existing: Seq<i64>, n: int) -> int
    decreases n,
{
    if n <= 0 {
        0
    } else {
        plan_imported(source, offset, existing, n - 1) + (if existing.contains(
            leaf_day_spec(source[n - 1].day, offset),
        ) {
            0int
        } else {
            1int
        })
    }
}

/// The gaps a dry run flags among the first `n` source posts: new days
/// whose source has no media URLs, in source order.
pub open spec fn plan_gaps(source: Seq<TransferPost>, offset: i64, existing: Seq<i64>, n: int) -> Seq<
    (i64, Seq<char>, GapReason, Seq<char>),
>
    decreases n,
{
    if n <= 0 {
        Seq::empty()
    } else {
        let prev = plan_gaps(source, offset, existing, n - 1);
        let p = source[n - 1];
        let day = leaf_day_spec(p.day, offset);
        if !existing.contains(day) && p.media.len() == 0 {
            prev.push(no_media_gap(day, p.message_id@))
        } else {
            prev
        }
    }
}

proof fn lemma_plan_imported_bounds(source: Seq<TransferPost>, offset: i64, existing: Seq<i64>, n: int)
    requires
        0 <= n,
    ensures
        0 <= plan_imported(source, offset, existing, n) <= n,
    decreases n,
{
    if n > 0 {
        lemma_plan_imported_bounds(source, offset, existing, n - 1);
    }
}

/// Adds a day to an ordered set of days.
fn add_day(set: &mut BTreeSet<i64>, d: i64)
    ensures
        final(set)@ == old(set)@.insert(d),
{
    broadcast use vstd::laws_cmp::group_laws_cmp;

    set.insert(d);
}

/// Whether an ordered set of days holds `d`.
fn has_day(set: &BTreeSet<i64>, d: i64) -> (r: bool)
    ensures
        r == set@.contains(d),
{
    broadcast use vstd::laws_cmp::group_laws_cmp;

    set.contains(&d)
}

/// The archived days as an ordered set, for membership checks.
fn day_set(days: &Vec<i64>) -> (r: BTreeSet<i64>)
    ensures
        forall|d: i64| #[trigger] r@.contains(d) <==> days@.contains(d),
{
    let mut set: BTreeSet<i64> = BTreeSet::new();
    let mut i: usize = 0;
    while i < days.len()
        invariant
            i <= days.len(),
            forall|d: i64| #[trigger] set@.contains(d) <==> exists|k: int| 0 <= k < i && days@[k] == d,
        decreases days.len() - i,
    {
        let d = days[i];
        add_day(&mut set, d);
        i = i + 1;
        assert forall|e: i64| #[trigger] set@.contains(e) <==> exists|k: int| 0 <= k < i && days@[k] == e by {
            if e == d {
                assert(days@[i - 1] == e);
            }
        }
    }
    set
}

/// Plans an import without writing anything (`--dry-run`), given the
/// reused series' id (0 when none exists) and its archived days.
///
/// Reports how many days would import vs. are already present, and flags
/// source days that carry no media URLs. Media outcomes that depend on the
/// live message are only known during a real import.
pub fn plan(source: &[TransferPost], cfg: &ImportConfig, series_id: i64, existing_days: &Vec<i64>) -> (r:
    Summary)
    ensures
        r.series_id == series_id,
        r.total_source == source.len(),
        r.imported == plan_imported(source@, cfg.day_offset, existing_days@, source.len() as int),
        r.skipped_existing == source.len() - r.imported,
        r.deferred == 0,
        r.media_stored == 0,
        r.media_missing == 0,
        gaps_view(r.gaps@) == plan_gaps(source@, cfg.day_offset, existing_days@, source.len() as int),
{
    let known = day_set(existing_days);
    let mut summary = Summary::new(series_id, source.len());
    let mut i: usize = 0;
    while i < source.len()
        invariant
            i <= source.len(),
            forall|d: i64| #[trigger] known@.contains(d) <==> existing_days@.contains(d),
            summary.series_id == series_id,
            summary.total_source == source.len(),
            summary.imported == plan_imported(source@, cfg.day_offset, existing_days@, i as int),
            summary.skipped_existing == i - summary.imported,
            summary.deferred == 0,
            summary.media_stored == 0,
            summary.media_missing == 0,
            gaps_view(summary.gaps@) == plan_gaps(source@, cfg.day_offset, existing_days@, i as int),
        decreases source.len() - i,
    {
        proof {
            lemma_plan_imported_bounds(source@, cfg.day_offset, existing_days@, i as int);
        }
        let p = &source[i];
        let day = leaf_day(p.day, cfg.day_offset);
        if has_day(&known, day) {
            summary.skipped_existing = summary.skipped_existing + 1;
        } else {
            summary.imported = summary.imported + 1;
            if p.media.len() == 0 {
                let g = Gap {
                    day,
                    message_id: p.message_id.clone(),
                    reason: GapReason::NoMediaRecovered,
                    detail: "source has no media URLs for this day".to_owned(),
                };
                summary.gaps.push(g);
                assert(gaps_view(summary.gaps@) =~= plan_gaps(
                    source@,
                    cfg.day_offset,
                    existing_days@,
                    i + 1,
                ));
            }
        }
        i = i + 1;
    }
    summary
}

/// Planning again after a run imported every new day imports nothing and
/// flags no gaps: when the archive now holds every day it held before and
/// every day the source maps to that it lacked, each source day is skipped
/// as already present (`plan` then reports `imported == 0` and
/// `skipped_existing == total_source`).
pub proof fn lemma_rerun_imports_nothing(
    source: Seq<TransferPost>,
    offset: i64,
    existing: Seq<i64>,
    after: Seq<i64>,
)
    requires
        forall|d: i64| existing.contains(d) ==> after.contains(d),
        forall|i: int| 0 <= i < source.len() && !existing.contains(#[trigger] leaf_day_spec(source[i].day, offset))
            ==> after.contains(leaf_day_spec(source[i].day, offset)),
    ensures
        plan_imported(source, offset, after, source.len() as int) == 0,
        plan_gaps(source, offset, after, source.len() as int).len() == 0,
{
    lemma_rerun_prefix(source, offset, existing, after, source.len() as int);
}

proof fn lemma_rerun_prefix(source: Seq<TransferPost>, offset: i64, existing: Seq<i64>, after: Seq<i64>, n: int)
    requires
        n <= source.len(),
        forall|d: i64| existing.contains(d) ==> after.contains(d),
        forall|i: int| 0 <= i < source.len() && !existing.contains(#[trigger] leaf_day_spec(source[i].day, offset))
            ==> after.contains(leaf_day_spec(source[i].day, offset)),
    ensures
        plan_imported(source, offset, after, n) == 0,
        plan_gaps(source, offset, after, n).len() == 0,
    decreases n,
{
    if n > 0 {
        lemma_rerun_prefix(source, offset, existing, after, n - 1);
        let d = leaf_day_spec(source[n - 1].day, offset);
        if existing.contains(d) {
            assert(after.contains(d));
        }
    }
}

/// A second plan never imports more than the first when the archive has
/// only grown: every day it would import, the first would have imported
/// too.
pub proof fn lemma_rerun_imports_no_more(
    source: Seq<TransferPost>,
    offset: i64,
    existing: Seq<i64>,
    after: Seq<i64>,
    n: int,
)
    requires
        forall|d: i64| existing.contains(d) ==> after.contains(d),
    ensures
        plan_imported(source, offset, after, n) <= plan_imported(source, offset, existing, n),
    decreases n,
{
    if n > 0 {
        lemma_rerun_imports_no_more(source, offset, existing, after, n - 1);
        let d = leaf_day_spec(source[n - 1].day, offset);
        if existing.contains(d) {
            assert(after.contains(d));
        }
    }
}

// ---------------------------------------------------------------------
// Per-day media plans
// ---------------------------------------------------------------------

/// The media plan for a single day, accumulated before the (atomic)
/// insert.
#[derive(Debug, Clone)]
pub struct DayMedia {
    /// Caption to archive.
    pub caption: String,
    /// Attachment rows to write.
    pub media: Vec<NewMediaAttachment>,
    /// Follow-ups for the gaps report.
    pub gaps: Vec<Gap>,
    /// Attachments stored in R2.
    pub stored: usize,
    /// Attachments recorded as missing.
    pub missing: usize,
}

/// `m` is the missing-media row recovered from v2 URL `url`.
pub open spec fn is_url_missing_row(m: NewMediaAttachment, url: Seq<char>, channel_id: Seq<char>, message_id: Seq<char>) -> bool {
    &&& (m.attachment_id@, m.content_type@) == missing_identity(url, message_id)
    &&& m.channel_id@ == channel_id
    &&& m.message_id@ == message_id
    &&& m.original_key is None
    &&& m.thumb_key is None
    &&& m.media_missing
}

/// `m` is the row of a live attachment whose bytes were stored as `stored`.
pub open spec fn is_stored_row(m: NewMediaAttachment, att: FetchedAttachment, channel_id: Seq<char>, message_id: Seq<char>, stored: StoredMedia) -> bool {
    &&& m.attachment_id@ == att.id@
    &&& m.channel_id@ == channel_id
    &&& m.message_id@ == message_id
    &&& m.content_type@ == att.content_type@
    &&& m.original_key matches Some(k) && k@ == stored.original_key@
    &&& m.thumb_key matches Some(k) && k@ == stored.thumb_key@
    &&& !m.media_missing
}

/// `m` is the missing-media row of a live attachment that could not be
/// stored.
pub open spec fn is_live_missing_row(m: NewMediaAttachment, att: FetchedAttachment, channel_id: Seq<char>, message_id: Seq<char>) -> bool {
    &&& m.attachment_id@ == att.id@
    &&& m.channel_id@ == channel_id
    &&& m.message_id@ == message_id
    &&& m.content_type@ == att.content_type@
    &&& m.original_key is None
    &&& m.thumb_key is None
    &&& m.media_missing
}

/// Every row `i` of `media` is the missing row recovered from `urls[i]`.
pub open spec fn rows_from_urls(media: Seq<NewMediaAttachment>, urls: Seq<String>, channel_id: Seq<char>, message_id: Seq<char>) -> bool {
    &&& media.len() == urls.len()
    &&& forall|i: int| 0 <= i < media.len() ==> is_url_missing_row(#[trigger] media[i], urls[i]@, channel_id, message_id)
}

fn missing_rows_from_urls(p: &TransferPost) -> (r: Vec<NewMediaAttachment>)
    ensures
        rows_from_urls(r@, p.media@, p.channel_id@, p.message_id@),
{
    let mut media: Vec<NewMediaAttachment> = Vec::new();
    let mut i: usize = 0;
    while i < p.media.len()
        invariant
            i <= p.media.len(),
            media.len() == i,
            forall|k: int| 0 <= k < i ==> is_url_missing_row(#[trigger] media@[k], p.media@[k]@, p.channel_id@, p.message_id@),
        decreases p.media.len() - i,
    {
        let m = missing_attachment_from_url(p.media[i].as_str(), p.channel_id.as_str(), p.message_id.as_str());
        media.push(m);
        i = i + 1;
    }
    media
}

/// The gap recorded when the source message is gone and its media was
/// recovered from v2 URLs.
pub open spec fn deleted_gap(day: i64, message_id: Seq<char>, n: nat) -> (i64, Seq<char>, GapReason, Seq<char>) {
    (day, message_id, GapReason::MessageDeleted, "source message deleted; "@ + nat_dec(n) + " media recorded as missing"@)
}

/// The gap recorded when the source message is gone and held no media.
pub open spec fn nothing_recovered_gap(day: i64, message_id: Seq<char>) -> (i64, Seq<char>, GapReason, Seq<char>) {
    (day, message_id, GapReason::NoMediaRecovered, "source message deleted; no media URLs to recover"@)
}

/// Builds the media plan when the live message is gone: recover ids from the
/// v2 URLs as missing placeholders.
pub fn build_missing(p: &TransferPost, day: i64) -> (r: DayMedia)
    ensures
        r.caption@ == Seq::<char>::empty(),
        r.stored == 0,
        rows_from_urls(r.media@, p.media@, p.channel_id@, p.message_id@),
        r.missing == p.media.len(),
        p.media.len() == 0 ==> gaps_view(r.gaps@) == seq![nothing_recovered_gap(day, p.message_id@)],
        p.media.len() > 0 ==> gaps_view(r.gaps@) == seq![deleted_gap(day, p.message_id@, p.media.len() as nat)],
{
    let media = missing_rows_from_urls(p);
    let mut gaps: Vec<Gap> = Vec::new();
    if p.media.len() == 0 {
        gaps.push(Gap {
            day,
            message_id: p.message_id.clone(),
            reason: GapReason::NoMediaRecovered,
            detail: "source message deleted; no media URLs to recover".to_owned(),
        });
    } else {
        let mut detail = String::new();
        push_str(&mut detail, "source message deleted; ");
        push_u64_dec(&mut detail, p.media.len() as u64);
        push_str(&mut detail, " media recorded as missing");
        gaps.push(Gap {
            day,
            message_id: p.message_id.clone(),
            reason: GapReason::MessageDeleted,
            detail,
        });
    }
    proof {
        assert(gaps_view(gaps@) =~= seq![gaps@[0]@]);
    }
    DayMedia { caption: String::new(), media, gaps, stored: 0, missing: p.media.len() }
}

/// How many of the first `n` archive outcomes succeeded.
pub open spec fn stored_count(outcomes: Seq<Result<StoredMedia, MediaError>>, n: int) -> int
    decreases n,
{
    if n <= 0 {
        0
    } else {
        stored_count(outcomes, n - 1) + (if outcomes[n - 1] is Ok {
            1int
        } else {
            0int
        })
    }
}

/// The gaps of the first `n` attachments: one per failed archive, naming
/// the attachment and the error.
pub open spec fn present_gaps(
    atts: Seq<FetchedAttachment>,
    outcomes: Seq<Result<StoredMedia, MediaError>>,
    day: i64,
    message_id: Seq<char>,
    n: int,
) -> Seq<(i64, Seq<char>, GapReason, Seq<char>)>
    decreases n,
{
    if n <= 0 {
        Seq::empty()
    } else {
        let prev = present_gaps(atts, outcomes, day, message_id, n - 1);
        match outcomes[n - 1] {
            Ok(_) => prev,
            Err(e) => prev.push(
                (
                    day,
                    message_id,
                    GapReason::MediaUnfetchable,
                    "attachment "@ + atts[n - 1].id@ + ": "@ + media_error_text(e),
                ),
            ),
        }
    }
}

proof fn lemma_stored_count_bounds(outcomes: Seq<Result<StoredMedia, MediaError>>, n: int)
    requires
        0 <= n,
    ensures
        0 <= stored_count(outcomes, n) <= n,
    decreases n,
{
    if n > 0 {
        lemma_stored_count_bounds(outcomes, n - 1);
    }
}

/// Builds the media plan when the live message was found, given the outcome
/// of archiving each of its attachments (`outcomes[i]` for attachment `i`):
/// stored attachments become rows with keys, failures become missing
/// placeholders and gaps. A message with no attachments falls back to v2's
/// stored URLs as missing placeholders.
pub fn build_present(
    msg: &FetchedMessage,
    p: &TransferPost,
    day: i64,
    outcomes: &Vec<Result<StoredMedia, MediaError>>,
) -> (r: DayMedia)
    requires
        outcomes.len() == msg.attachments.len(),
    ensures
        r.caption@ == msg.content@,
        msg.attachments.len() == 0 ==> {
            &&& rows_from_urls(r.media@, p.media@, p.channel_id@, p.message_id@)
            &&& r.stored == 0
            &&& r.missing == p.media.len()
            &&& p.media.len() == 0 ==> r.gaps@.len() == 0
            &&& p.media.len() > 0 ==> gaps_view(r.gaps@) == seq![
                (
                    day,
                    p.message_id@,
                    GapReason::MediaUnfetchable,
                    "live message has no attachments; recorded v2 URLs as missing"@,
                ),
            ]
        },
        msg.attachments.len() > 0 ==> {
            &&& r.media.len() == msg.attachments.len()
            &&& forall|i: int|
                0 <= i < r.media.len() ==> match #[trigger] outcomes@[i] {
                    Ok(s) => is_stored_row(r.media@[i], msg.attachments@[i], p.channel_id@, p.message_id@, s),
                    Err(_) => is_live_missing_row(r.media@[i], msg.attachments@[i], p.channel_id@, p.message_id@),
                }
            &&& r.stored == stored_count(outcomes@, outcomes.len() as int)
            &&& r.missing == outcomes.len() - r.stored
            &&& gaps_view(r.gaps@) == present_gaps(msg.attachments@, outcomes@, day, p.message_id@, outcomes.len() as int)
        },
{
    let caption = msg.content.clone();
    if msg.attachments.len() == 0 {
        let media = missing_rows_from_urls(p);
        let mut gaps: Vec<Gap> = Vec::new();
        if p.media.len() > 0 {
            gaps.push(Gap {
                day,
                message_id: p.message_id.clone(),
                reason: GapReason::MediaUnfetchable,
                detail: "live message has no attachments; recorded v2 URLs as missing".to_owned(),
            });
            assert(gaps_view(gaps@) =~= seq![gaps@[0]@]);
        }
        return DayMedia { caption, media, gaps, stored: 0, missing: p.media.len() };
    }
    let mut media: Vec<NewMediaAttachment> = Vec::new();
    let mut gaps: Vec<Gap> = Vec::new();
    let mut stored: usize = 0;
    let mut i: usize = 0;
    while i < msg.attachments.len()
        invariant
            i <= msg.attachments.len(),
            outcomes.len() == msg.attachments.len(),
            media.len() == i,
            forall|k: int|
                0 <= k < i ==> match #[trigger] outcomes@[k] {
                    Ok(s) => is_stored_row(media@[k], msg.attachments@[k], p.channel_id@, p.message_id@, s),
                    Err(_) => is_live_missing_row(media@[k], msg.attachments@[k], p.channel_id@, p.message_id@),
                },
            stored == stored_count(outcomes@, i as int),
            gaps_view(gaps@) == present_gaps(msg.attachments@, outcomes@, day, p.message_id@, i as int),
        decreases msg.attachments.len() - i,
    {
        proof {
            lemma_stored_count_bounds(outcomes@, i as int);
        }
        let att = &msg.attachments[i];
        match &outcomes[i] {
            Ok(s) => {
                media.push(stored_attachment(att.id.as_str(), p.channel_id.as_str(), p.message_id.as_str(), att.content_type.as_str(), s));
                stored = stored + 1;
            },
            Err(e) => {
                media.push(missing_attachment_live(att.id.as_str(), p.channel_id.as_str(), p.message_id.as_str(), att.content_type.as_str()));
                let mut detail = String::new();
                push_str(&mut detail, "attachment ");
                push_str(&mut detail, att.id.as_str());
                push_str(&mut detail, ": ");
                let em = e.message();
                push_str(&mut detail, em.as_str());
                gaps.push(Gap { day, message_id: p.message_id.clone(), reason: GapReason::MediaUnfetchable, detail });
                assert(gaps_view(gaps@) =~= present_gaps(msg.attachments@, outcomes@, day, p.message_id@, i + 1));
            },
        }
        i = i + 1;
    }
    proof {
        lemma_stored_count_bounds(outcomes@, outcomes.len() as int);
    }
    DayMedia { caption, media, gaps, stored, missing: msg.attachments.len() - stored }
}

/// The post row an imported day lands as.
pub fn day_post(p: &TransferPost, day: i64, series_id: i64, caption: String, now_unix: i64) -> (r: Post)
    ensures
        r.series_id == series_id,
        r.day == day,
        r.message_id@ == p.message_id@,
        r.channel_id@ == p.channel_id@,
        r.caption == caption,
        r.posted_at == p.timestamp,
        r.archived_at == now_unix,
{
    Post {
        series_id,
        day,
        message_id: p.message_id.clone(),
        channel_id: p.channel_id.clone(),
        caption,
        posted_at: p.timestamp,
        archived_at: now_unix,
    }
}

// ---------------------------------------------------------------------
// Tallying a run
// ---------------------------------------------------------------------

/// What happened to one source day during an import.
#[derive(Debug, Clone)]
pub enum DayOutcome {
    /// The day was already archived; nothing was fetched.
    Existing,
    /// The source message could not be fetched (transient or unknown error);
    /// the day was left unwritten so a re-run retries it.
    Deferred {
        /// Leaf day number.
        day: i64,
        /// Source message snowflake.
        message_id: String,
        /// The fetch error.
        detail: String,
    },
    /// The day's rows were written.
    Inserted(DayMedia),
    /// The insert found the day already present (a lost race).
    Duplicate,
}

/// The outcome of a day's insert: written with its media plan, already
/// present (a lost race), or a store failure that stops the run.
pub fn insert_outcome(inserted: Result<(), DbError>, plan: DayMedia) -> (r: Result<DayOutcome, DbError>)
    ensures
        match inserted {
            Ok(()) => r == Ok::<DayOutcome, DbError>(DayOutcome::Inserted(plan)),
            Err(DbError::DuplicateDay(_)) => r == Ok::<DayOutcome, DbError>(DayOutcome::Duplicate),
            Err(e) => r == Err::<DayOutcome, DbError>(e),
        },
{
    match inserted {
        Ok(()) => Ok(DayOutcome::Inserted(plan)),
        Err(DbError::DuplicateDay(_)) => Ok(DayOutcome::Duplicate),
        Err(e) => Err(e),
    }
}

/// Days accounted for by a summary: written, skipped or deferred.
pub open spec fn accounted(s: Summary) -> int {
    s.imported + s.skipped_existing + s.deferred
}

/// The counters of a summary stay representable after one more outcome.
pub open spec fn can_record(s: Summary, o: DayOutcome) -> bool {
    &&& s.imported < usize::MAX
    &&& s.skipped_existing < usize::MAX
    &&& s.deferred < usize::MAX
    &&& o matches DayOutcome::Inserted(d) ==> s.media_stored + d.stored <= usize::MAX
        && s.media_missing + d.missing <= usize::MAX
}

impl Summary {
    /// Tallies one source day's outcome: an existing day or a lost insert
    /// race counts as skipped, a deferred fetch counts as deferred with a
    /// gap, and an inserted day counts as imported with its media tallies
    /// and gaps appended.
    pub fn record(&mut self, outcome: DayOutcome)
        requires
            can_record(*old(self), outcome),
        ensures
            final(self).series_id == old(self).series_id,
            final(self).total_source == old(self).total_source,
            accounted(*final(self)) == accounted(*old(self)) + 1,
            match outcome {
                DayOutcome::Existing | DayOutcome::Duplicate => {
                    &&& final(self).skipped_existing == old(self).skipped_existing + 1
                    &&& final(self).imported == old(self).imported
                    &&& final(self).deferred == old(self).deferred
                    &&& final(self).media_stored == old(self).media_stored
                    &&& final(self).media_missing == old(self).media_missing
                    &&& final(self).gaps@ == old(self).gaps@
                },
                DayOutcome::Deferred { day, message_id, detail } => {
                    &&& final(self).deferred == old(self).deferred + 1
                    &&& final(self).imported == old(self).imported
                    &&& final(self).skipped_existing == old(self).skipped_existing
                    &&& final(self).media_stored == old(self).media_stored
                    &&& final(self).media_missing == old(self).media_missing
                    &&& gaps_view(final(self).gaps@) == gaps_view(old(self).gaps@).push(
                        (day, message_id@, GapReason::FetchDeferred, detail@),
                    )
                },
                DayOutcome::Inserted(d) => {
                    &&& final(self).imported == old(self).imported + 1
                    &&& final(self).skipped_existing == old(self).skipped_existing
                    &&& final(self).deferred == old(self).deferred
                    &&& final(self).media_stored == old(self).media_stored + d.stored
                    &&& final(self).media_missing == old(self).media_missing + d.missing
                    &&& final(self).gaps@ == old(self).gaps@ + d.gaps@
                },
            },
    {
        match outcome {
            DayOutcome::Existing | DayOutcome::Duplicate => {
                self.skipped_existing = self.skipped_existing + 1;
            },
            DayOutcome::Deferred { day, message_id, detail } => {
                self.deferred = self.deferred + 1;
                let ghost before = self.gaps@;
                self.gaps.push(Gap { day, message_id, reason: GapReason::FetchDeferred, detail });
                assert(gaps_view(self.gaps@) =~= gaps_view(before).push((day, self.gaps@.last().message_id@, GapReason::FetchDeferred, self.gaps@.last().detail@)));
            },
            DayOutcome::Inserted(d) => {
                self.imported = self.imported + 1;
                self.media_stored = self.media_stored + d.stored;
                self.media_missing = self.media_missing + d.missing;
                let mut g = d.gaps;
                self.gaps.append(&mut g);
            },
        }
    }
}

/// Each source day is accounted for exactly once: after recording one
/// outcome per day, starting from a fresh summary, the days written,
/// skipped and deferred add up to the days seen.
pub proof fn lemma_each_day_accounted_once(start: Summary, steps: Seq<Summary>)
    requires
        accounted(start) == 0,
        steps.len() > 0,
        steps[0] == start,
        forall|k: int| 0 < k < steps.len() ==> accounted(#[trigger] steps[k]) == accounted(steps[k - 1]) + 1,
    ensures
        accounted(steps.last()) == steps.len() - 1,
    decreases steps.len(),
{
    if steps.len() > 1 {
        lemma_each_day_accounted_once(start, steps.drop_last());
        assert(accounted(steps[steps.len() - 1]) == accounted(steps[steps.len() - 2]) + 1);
    }
}

// ---------------------------------------------------------------------
// Fetching the live message
// ---------------------------------------------------------------------

/// Cap on consecutive rate-limit backoffs before giving up on a message.
pub const MAX_RATE_LIMIT_RETRIES: u32 = 5;

/// What to do with one HTTP response to a message fetch.
#[derive(Debug, Clone, Copy, PartialEq, Eq, Structural)]
pub enum FetchStep {
    /// 2xx: read the message body.
    Found,
    /// 404: the message was deleted, definitively gone.
    Deleted,
    /// 429: wait as Discord asks, then try again.
    Backoff,
    /// 429 once too often: give up on this message for this run.
    RetriesExhausted,
    /// Any other status: a failure to report.
    Failed,
}

/// The next step of a message fetch for HTTP `status`, after `retries`
/// rate-limit backoffs, with the updated backoff count.
pub open spec fn fetch_step_spec(status: u16, retries: u32) -> (FetchStep, u32) {
    if 200 <= status <= 299 {
        (FetchStep::Found, retries)
    } else if status == 404 {
        (FetchStep::Deleted, retries)
    } else if status == 429 {
        let n = if retries < u32::MAX { (retries + 1) as u32 } else { u32::MAX };
        if n > MAX_RATE_LIMIT_RETRIES {
            (FetchStep::RetriesExhausted, n)
        } else {
            (FetchStep::Backoff, n)
        }
    } else {
        (FetchStep::Failed, retries)
    }
}

/// Decides what a message fetch does with a response: read it, report the
/// message deleted, back off on a rate limit (up to the retry cap), or fail.
pub fn fetch_step(status: u16, retries: u32) -> (r: (FetchStep, u32))
    ensures
        r == fetch_step_spec(status, retries),
{
    if 200 <= status && status <= 299 {
        (FetchStep::Found, retries)
    } else if status == 404 {
        (FetchStep::Deleted, retries)
    } else if status == 429 {
        let n = if retries < u32::MAX { retries + 1 } else { u32::MAX };
        if n > MAX_RATE_LIMIT_RETRIES {
            (FetchStep::RetriesExhausted, n)
        } else {
            (FetchStep::Backoff, n)
        }
    } else {
        (FetchStep::Failed, retries)
    }
}

} // verus!
