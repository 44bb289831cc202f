//! The media pipeline's rules: where an attachment lands in object storage,
//! which content types are archived, the size cap, when an upload goes
//! multipart, and how an EXIF orientation is undone.
//!
//! Downloading, storage and image transcoding are I/O and stay with the
//! caller; these functions decide what they do.

use vstd::prelude::*;

use crate::text::{first_at, int_dec, nat_dec, push_i64_dec, push_str, str_starts_with, trim, trim_chars, has_prefix};

verus! {

/// Thumbnail long-edge in pixels (gallery grid / heatmap tiles).
pub const THUMB_LONG_EDGE: u32 = 256;

/// Default per-file size cap in bytes (100 MB).
pub const DEFAULT_MAX_BYTES: u64 = 104857600;

/// Files larger than this stream to storage via multipart upload (8 MB).
pub const DEFAULT_MULTIPART_THRESHOLD: u64 = 8388608;

/// Bytes per megabyte, for the size-cap message.
pub const BYTES_PER_MB: u64 = 1048576;

/// Content types leaf will archive.
pub const ALLOWED_CONTENT_TYPES: [&'static str; 8] = [
    "image/png",
    "image/jpeg",
    "image/jpg",
    "image/webp",
    "image/gif",
    "video/mp4",
    "video/webm",
    "video/quicktime",
];

/// Whether `base` is one of the archivable content types.
pub open spec fn is_allowed_type(base: Seq<char>) -> bool {
    ||| base == "image/png"@
    ||| base == "image/jpeg"@
    ||| base == "image/jpg"@
    ||| base == "image/webp"@
    ||| base == "image/gif"@
    ||| base == "video/mp4"@
    ||| base == "video/webm"@
    ||| base == "video/quicktime"@
}

/// Errors from the media pipeline, split by phase so callers can tell a
/// user problem (too large, wrong type) from an infrastructure problem.
#[derive(Debug, Clone, PartialEq, Eq)]
pub enum MediaError {
    /// Downloading from the source URL failed.
    Fetch(String),
    /// The file exceeds the configured size cap.
    TooLarge {
        /// The configured cap, in megabytes.
        limit_mb: u64,
    },
    /// The content type is not archivable.
    UnsupportedType(String),
    /// Decoding / thumbnailing failed.
    Transform(String),
    /// Object storage failed.
    Store(String),
    /// Local temp-file IO failed.
    Io(String),
}

/// The user-facing text of a media error.
pub open spec fn media_error_text(e: MediaError) -> Seq<char> {
    match e {
        MediaError::Fetch(m) => "fetching media: "@ + m@,
        MediaError::TooLarge { limit_mb } => "file exceeds the "@ + nat_dec(limit_mb as nat)
            + " MB limit"@,
        MediaError::UnsupportedType(m) => "unsupported content type: "@ + m@,
        MediaError::Transform(m) => "transforming media: "@ + m@,
        MediaError::Store(m) => "storing media: "@ + m@,
        MediaError::Io(m) => "media io: "@ + m@,
    }
}

impl MediaError {
    /// The error's message (its `Display` text).
    pub fn message(&self) -> (r: String)
        ensures
            r@ == media_error_text(*self),
    {
        let mut s = String::new();
        match self {
            MediaError::Fetch(m) => {
                push_str(&mut s, "fetching media: ");
                push_str(&mut s, m.as_str());
            },
            MediaError::TooLarge { limit_mb } => {
                push_str(&mut s, "file exceeds the ");
                crate::text::push_u64_dec(&mut s, *limit_mb);
                push_str(&mut s, " MB limit");
            },
            MediaError::UnsupportedType(m) => {
                push_str(&mut s, "unsupported content type: ");
                push_str(&mut s, m.as_str());
            },
            MediaError::Transform(m) => {
                push_str(&mut s, "transforming media: ");
                push_str(&mut s, m.as_str());
            },
            MediaError::Store(m) => {
                push_str(&mut s, "storing media: ");
                push_str(&mut s, m.as_str());
            },
            MediaError::Io(m) => {
                push_str(&mut s, "media io: ");
                push_str(&mut s, m.as_str());
            },
        }
        assert(s@ =~= media_error_text(*self));
        s
    }
}

/// Identifies where an attachment lands in storage.
#[derive(Debug, Clone)]
pub struct MediaMeta {
    /// Guild snowflake.
    pub guild_id: String,
    /// Series id.
    pub series_id: i64,
    /// Day number.
    pub day: i64,
    /// Discord attachment snowflake.
    pub attachment_id: String,
    /// MIME type as reported by Discord.
    pub content_type: String,
}

/// Result of archiving one attachment.
#[derive(Debug, Clone, PartialEq, Eq)]
pub struct StoredMedia {
    /// Object key of the original file.
    pub original_key: String,
    /// Object key of the WebP thumbnail.
    pub thumb_key: String,
    /// Original size in bytes.
    pub size: u64,
}

/// `g/<guild>/s/<series>/d/<day>/` — the directory of one archived day.
pub open spec fn day_dir(m: MediaMeta) -> Seq<char> {
    "g/"@ + m.guild_id@ + "/s/"@ + int_dec(m.series_id as int) + "/d/"@ + int_dec(m.day as int)
        + "/"@
}

/// Object key of an original: `g/<guild>/s/<series>/d/<day>/<attachment>`.
pub open spec fn original_key_spec(m: MediaMeta) -> Seq<char> {
    day_dir(m) + m.attachment_id@
}

/// Object key of a thumbnail: `g/<guild>/s/<series>/d/<day>/thumb/<attachment>.webp`.
pub open spec fn thumb_key_spec(m: MediaMeta) -> Seq<char> {
    day_dir(m) + "thumb/"@ + m.attachment_id@ + ".webp"@
}

fn push_day_dir(s: &mut String, m: &MediaMeta)
    ensures
        final(s)@ == old(s)@ + day_dir(*m),
{
    push_str(s, "g/");
    push_str(s, m.guild_id.as_str());
    push_str(s, "/s/");
    push_i64_dec(s, m.series_id);
    push_str(s, "/d/");
    push_i64_dec(s, m.day);
    push_str(s, "/");
    assert(final(s)@ =~= old(s)@ + day_dir(*m));
}

/// Object key of an original: `g/<guild>/s/<series>/d/<day>/<attachment>`.
pub fn original_key(m: &MediaMeta) -> (r: String)
    ensures
        r@ == original_key_spec(*m),
{
    let mut s = String::new();
    push_day_dir(&mut s, m);
    push_str(&mut s, m.attachment_id.as_str());
    s
}

/// Object key of a thumbnail: original path with a `thumb/` leaf + `.webp`.
pub fn thumb_key(m: &MediaMeta) -> (r: String)
    ensures
        r@ == thumb_key_spec(*m),
{
    let mut s = String::new();
    push_day_dir(&mut s, m);
    push_str(&mut s, "thumb/");
    push_str(&mut s, m.attachment_id.as_str());
    push_str(&mut s, ".webp");
    assert(s@ =~= thumb_key_spec(*m));
    s
}

/// The media type of a `Content-Type` value: the part before the first
/// `;`, trimmed.
pub open spec fn base_type(ct: Seq<char>) -> Seq<char> {
    trim(ct.take(first_at(ct, ';', 0)))
}

fn is_lit(v: &Vec<char>, lit: &str) -> (r: bool)
    ensures
        r == (v@ == lit@),
{
    let t = crate::text::chars_of(lit);
    crate::text::chars_eq(v.as_slice(), t.as_slice())
}

fn is_allowed_base(v: &Vec<char>) -> (r: bool)
    ensures
        r == is_allowed_type(v@),
{
    is_lit(v, "image/png") || is_lit(v, "image/jpeg") || is_lit(v, "image/jpg") || is_lit(
        v,
        "image/webp",
    ) || is_lit(v, "image/gif") || is_lit(v, "video/mp4") || is_lit(v, "video/webm") || is_lit(
        v,
        "video/quicktime",
    )
}

/// Accepts a content type whose media type (before any `;` parameters,
/// trimmed) is on the allowlist; otherwise `UnsupportedType` carrying the
/// whole value.
pub fn check_content_type(ct: &str) -> (r: Result<(), MediaError>)
    ensures
        r is Ok <==> is_allowed_type(base_type(ct@)),
        r matches Err(e) ==> e matches MediaError::UnsupportedType(m) && m@ == ct@,
{
    let v = crate::text::chars_of(ct);
    let mut i: usize = 0;
    while i < v.len() && v[i] != ';'
        invariant
            i <= v.len(),
            v@ == ct@,
            first_at(ct@, ';', 0) == first_at(ct@, ';', i as int),
        decreases v.len() - i,
    {
        i = i + 1;
    }
    let head = crate::text::slice_chars(v.as_slice(), 0, i);
    assert(head@ == ct@.take(first_at(ct@, ';', 0)));
    let base = trim_chars(head.as_slice());
    if is_allowed_base(&base) {
        Ok(())
    } else {
        Err(MediaError::UnsupportedType(ct.to_owned()))
    }
}

/// The size cap: `TooLarge` (with the cap in whole megabytes) exactly when
/// `size` exceeds `max_bytes`.
pub fn check_size(size: u64, max_bytes: u64) -> (r: Result<(), MediaError>)
    ensures
        r is Ok <==> size <= max_bytes,
        r matches Err(e) ==> e == (MediaError::TooLarge { limit_mb: max_bytes / BYTES_PER_MB }),
{
    if size > max_bytes {
        Err(MediaError::TooLarge { limit_mb: max_bytes / BYTES_PER_MB })
    } else {
        Ok(())
    }
}

/// Counts one downloaded chunk against the cap as the bytes arrive (so a
/// lying `Content-Length` cannot bypass it): the new running total, or
/// `TooLarge` as soon as the total exceeds `max_bytes`.
pub fn count_chunk(written: u64, chunk_len: usize, max_bytes: u64) -> (r: Result<u64, MediaError>)
    ensures
        written + chunk_len > max_bytes ==> r == Err::<u64, MediaError>(
            MediaError::TooLarge { limit_mb: max_bytes / BYTES_PER_MB },
        ),
        written + chunk_len <= max_bytes ==> r == Ok::<u64, MediaError>((written + chunk_len) as u64),
{
    match written.checked_add(chunk_len as u64) {
        Some(total) => if total > max_bytes {
            Err(MediaError::TooLarge { limit_mb: max_bytes / BYTES_PER_MB })
        } else {
            Ok(total)
        },
        None => Err(MediaError::TooLarge { limit_mb: max_bytes / BYTES_PER_MB }),
    }
}

/// Whether an original of `size` bytes streams to storage in parts (above
/// the threshold) rather than in a single put.
pub fn uses_multipart(size: u64, threshold: u64) -> (r: bool)
    ensures
        r == (size > threshold),
{
    size > threshold
}

/// Whether the thumbnail comes from a video poster frame (`video/*`)
/// rather than from the file's own pixels.
pub fn is_video_type(content_type: &str) -> (r: bool)
    ensures
        r == has_prefix(content_type@, "video/"@),
{
    str_starts_with(content_type, "video/")
}

/// How to bring pixels upright for an EXIF orientation tag.
#[derive(Debug, Clone, Copy, PartialEq, Eq, Structural)]
pub enum OrientationFix {
    /// Orientation 1, or unknown: leave as stored.
    Keep,
    /// Orientation 2: mirror horizontally.
    FlipHorizontal,
    /// Orientation 3: rotate half a turn.
    Rotate180,
    /// Orientation 4: mirror vertically.
    FlipVertical,
    /// Orientation 5: rotate a quarter turn clockwise, then mirror.
    Rotate90FlipHorizontal,
    /// Orientation 6: rotate a quarter turn clockwise.
    Rotate90,
    /// Orientation 7: rotate three quarters clockwise, then mirror.
    Rotate270FlipHorizontal,
    /// Orientation 8: rotate three quarters clockwise.
    Rotate270,
}

/// The transform for each EXIF orientation (1–8); anything else is kept.
pub open spec fn orientation_fix_spec(orientation: u32) -> OrientationFix {
    if orientation == 2 {
        OrientationFix::FlipHorizontal
    } else if orientation == 3 {
        OrientationFix::Rotate180
    } else if orientation == 4 {
        OrientationFix::FlipVertical
    } else if orientation == 5 {
        OrientationFix::Rotate90FlipHorizontal
    } else if orientation == 6 {
        OrientationFix::Rotate90
    } else if orientation == 7 {
        OrientationFix::Rotate270FlipHorizontal
    } else if orientation == 8 {
        OrientationFix::Rotate270
    } else {
        OrientationFix::Keep
    }
}

/// The transform that renders pixels stored with EXIF `orientation`
/// upright.
pub fn orientation_fix(orientation: u32) -> (r: OrientationFix)
    ensures
        r == orientation_fix_spec(orientation),
{
    match orientation {
        2 => OrientationFix::FlipHorizontal,
        3 => OrientationFix::Rotate180,
        4 => OrientationFix::FlipVertical,
        5 => OrientationFix::Rotate90FlipHorizontal,
        6 => OrientationFix::Rotate90,
        7 => OrientationFix::Rotate270FlipHorizontal,
        8 => OrientationFix::Rotate270,
        _ => OrientationFix::Keep,
    }
}

} // verus!
