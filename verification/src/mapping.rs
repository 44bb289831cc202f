//! Mapping of walpurgisbot-v2 records to leaf domain types, for the
//! migration tool.
//!
//! Deterministic and side-effect-free: day offsets, storage coordinates,
//! CDN URL parsing, content-type guessing and the attachment rows written
//! for stored and missing media.

use std::hash::{Hash, Hasher};

use vstd::prelude::*;

use crate::domain::NewMediaAttachment;
use crate::media::{MediaMeta, StoredMedia};
use crate::text::{
    chars_of, find_chars, find_from, first_at, first_of_at, index_of_char, index_of_either,
    last_at, last_index_of, lemma_find_from_bounds, lemma_first_at_bounds, lower_chars, lower_seq,
    push_char, push_str, slice_chars, string_of,
};

verus! {

/// Content type recorded for media kept as a missing placeholder whose
/// type cannot be told from a filename.
pub const UNKNOWN_CONTENT_TYPE: &'static str = "application/octet-stream";

/// Maps a v2 day number to its leaf day by applying the day offset,
/// saturating so a pathological offset can never wrap.
pub open spec fn leaf_day_spec(v2_day: i64, offset: i64) -> i64 {
    if v2_day + offset > i64::MAX {
        i64::MAX
    } else if v2_day + offset < i64::MIN {
        i64::MIN
    } else {
        (v2_day + offset) as i64
    }
}

/// Maps a v2 day number to its leaf day by applying the `--day-offset`.
/// Saturating so a pathological offset can never wrap into a negative day.
pub fn leaf_day(v2_day: i64, offset: i64) -> (r: i64)
    ensures
        r == leaf_day_spec(v2_day, offset),
{
    if offset > 0 && v2_day > i64::MAX - offset {
        i64::MAX
    } else if offset < 0 && v2_day < i64::MIN - offset {
        i64::MIN
    } else {
        v2_day + offset
    }
}

/// The R2 storage coordinates for one attachment of an imported day.
pub fn media_meta(
    guild_id: &str,
    series_id: i64,
    day: i64,
    attachment_id: &str,
    content_type: &str,
) -> (r: MediaMeta)
    ensures
        r.guild_id@ == guild_id@,
        r.series_id == series_id,
        r.day == day,
        r.attachment_id@ == attachment_id@,
        r.content_type@ == content_type@,
{
    MediaMeta {
        guild_id: guild_id.to_owned(),
        series_id,
        day,
        attachment_id: attachment_id.to_owned(),
        content_type: content_type.to_owned(),
    }
}

/// The path segment that marks a CDN attachment.
pub open spec fn attachments_marker() -> Seq<char> {
    "/attachments/"@
}

/// A URL without its query string or fragment.
pub open spec fn url_path(url: Seq<char>) -> Seq<char> {
    url.take(first_of_at(url, '?', '#', 0))
}

/// The text between the first `/attachments/` and the next one (or the
/// end), if the marker occurs.
pub open spec fn after_marker(p: Seq<char>) -> Option<Seq<char>> {
    let i = find_from(p, attachments_marker(), 0);
    if i + attachments_marker().len() > p.len() {
        None
    } else {
        let rest = p.skip(i + attachments_marker().len());
        Some(rest.take(find_from(rest, attachments_marker(), 0)))
    }
}

/// `(attachment_id, filename)` of a Discord CDN attachment URL: the second
/// and third `/`-separated segments after `/attachments/`, both non-empty.
pub open spec fn cdn_attachment_spec(url: Seq<char>) -> Option<(Seq<char>, Seq<char>)> {
    match after_marker(url_path(url)) {
        None => None,
        Some(a) => {
            let x = first_at(a, '/', 0);
            if x >= a.len() {
                None
            } else {
                let y = first_at(a, '/', x + 1);
                if y >= a.len() {
                    None
                } else {
                    let id = a.subrange(x + 1, y);
                    let name = a.subrange(y + 1, first_at(a, '/', y + 1));
                    if id.len() == 0 || name.len() == 0 {
                        None
                    } else {
                        Some((id, name))
                    }
                }
            }
        },
    }
}

/// Parses a Discord CDN attachment URL into `(attachment_id, filename)`.
///
/// CDN paths are `/attachments/<channel>/<attachment_id>/<filename>` on both
/// `cdn.discordapp.com` and `media.discordapp.net`. The id and filename live
/// in the path, so they survive after the signed query string has expired,
/// which recovers a stable attachment id for a `media_missing` row.
pub fn parse_cdn_attachment(url: &str) -> (r: Option<(String, String)>)
    ensures
        match r {
            Some((id, name)) => cdn_attachment_spec(url@) == Some((id@, name@)),
            None => cdn_attachment_spec(url@) is None,
        },
{
    let v = chars_of(url);
    let cut = index_of_either(v.as_slice(), '?', '#');
    let path = slice_chars(v.as_slice(), 0, cut);
    assert(path@ == url_path(url@));
    let marker = chars_of("/attachments/");
    let i = find_chars(path.as_slice(), marker.as_slice(), 0);
    if marker.len() > path.len() - i {
        return None;
    }
    let rest = slice_chars(path.as_slice(), i + marker.len(), path.len());
    assert(rest@ == path@.skip(i + marker@.len()));
    let j = find_chars(rest.as_slice(), marker.as_slice(), 0);
    let a = slice_chars(rest.as_slice(), 0, j);
    assert(a@ == rest@.take(j as int));
    let x = index_of_char(a.as_slice(), '/', 0);
    if x >= a.len() {
        return None;
    }
    let y = index_of_char(a.as_slice(), '/', x + 1);
    if y >= a.len() {
        return None;
    }
    let z = index_of_char(a.as_slice(), '/', y + 1);
    let id = slice_chars(a.as_slice(), x + 1, y);
    let name = slice_chars(a.as_slice(), y + 1, z);
    if id.len() == 0 || name.len() == 0 {
        return None;
    }
    Some((string_of(id.as_slice()), string_of(name.as_slice())))
}

/// `s` holds none of `/`, `?` and `#`: a single path segment.
pub open spec fn plain_segment(s: Seq<char>) -> bool {
    forall|i: int| 0 <= i < s.len() ==> #[trigger] s[i] != '/' && s[i] != '?' && s[i] != '#'
}

/// A Discord CDN attachment URL:
/// `https://<host>/attachments/<channel>/<id>/<name>?<query>`.
pub open spec fn cdn_url(
    host: Seq<char>,
    channel: Seq<char>,
    id: Seq<char>,
    name: Seq<char>,
    query: Seq<char>,
) -> Seq<char> {
    "https://"@ + host + attachments_marker() + channel + "/"@ + id + "/"@ + name + "?"@ + query
}

proof fn lemma_first_of_at_is(s: Seq<char>, a: char, b: char, i: int, j: int)
    requires
        0 <= i <= j < s.len(),
        s[j] == a || s[j] == b,
        forall|k: int| i <= k < j ==> #[trigger] s[k] != a && s[k] != b,
    ensures
        first_of_at(s, a, b, i) == j,
    decreases j - i,
{
    if i < j {
        lemma_first_of_at_is(s, a, b, i + 1, j);
    }
}

proof fn lemma_first_at_is(s: Seq<char>, c: char, i: int, j: int)
    requires
        0 <= i <= j <= s.len(),
        j < s.len() ==> s[j] == c,
        forall|k: int| i <= k < j ==> #[trigger] s[k] != c,
    ensures
        first_at(s, c, i) == j,
    decreases j - i,
{
    if i < j {
        lemma_first_at_is(s, c, i + 1, j);
    }
}

proof fn lemma_find_from_is(s: Seq<char>, pat: Seq<char>, i: int, j: int)
    requires
        0 <= i <= j,
        j + pat.len() <= s.len() ==> s.subrange(j, j + pat.len()) == pat,
        j + pat.len() > s.len() ==> j == s.len() && i + pat.len() > s.len() || forall|k: int|
            i <= k <= s.len() - pat.len() ==> #[trigger] s.subrange(k, k + pat.len()) != pat,
        j <= s.len(),
        forall|k: int| i <= k < j && k + pat.len() <= s.len() ==> #[trigger] s.subrange(k, k + pat.len()) != pat,
    ensures
        find_from(s, pat, i) == j || (j + pat.len() > s.len() && find_from(s, pat, i) == s.len()),
    decreases s.len() - i,
{
    if i < s.len() && i + pat.len() <= s.len() {
        if s.subrange(i, i + pat.len()) != pat {
            lemma_find_from_is(s, pat, i + 1, if j == i { s.len() as int } else { j });
        }
    }
}

/// The characters of a `/`-free stretch followed by a `/` cannot spell the
/// marker unless the stretch is exactly `attachments`.
proof fn lemma_marker_needs_word(t: Seq<char>, k: int, word: Seq<char>)
    requires
        0 <= k,
        k + 13 <= t.len(),
        t.subrange(k, k + 13) == attachments_marker(),
        t[k] == '/',
        plain_segment(word),
        k + 1 + word.len() <= t.len(),
        t.subrange(k + 1, k + 1 + word.len()) == word,
        k + 1 + word.len() < t.len() ==> t[k + 1 + word.len()] == '/',
    ensures
        word == "attachments"@,
{
    reveal_strlit("/attachments/");
    reveal_strlit("attachments");
    let m = attachments_marker();
    let wl = word.len() as int;
    assert(t[k + 12] == m[12]);
    if wl > 11 {
        assert(word[11] == t[k + 12]);
    }
    if wl < 11 {
        assert(t[k + 1 + wl] == m[1 + wl]);
    }
    assert(wl == 11);
    assert forall|d: int| 0 <= d < 11 implies word[d] == "attachments"@[d] by {
        assert(word[d] == t[k + 1 + d]);
        assert(t[k + 1 + d] == m[1 + d]);
    }
    assert(word =~= "attachments"@);
}

/// A CDN URL built from its parts parses back to its attachment id and
/// filename, whatever the query string, when the host, channel, id and
/// filename are single path segments, the id and filename are non-empty,
/// and neither the host nor the id is the word `attachments` itself.
pub proof fn lemma_cdn_url_round_trip(
    host: Seq<char>,
    channel: Seq<char>,
    id: Seq<char>,
    name: Seq<char>,
    query: Seq<char>,
)
    requires
        plain_segment(host),
        plain_segment(channel),
        plain_segment(id),
        plain_segment(name),
        id.len() > 0,
        name.len() > 0,
        host != "attachments"@,
        id != "attachments"@,
    ensures
        cdn_attachment_spec(cdn_url(host, channel, id, name, query)) == Some((id, name)),
{
    reveal_strlit("https://");
    reveal_strlit("/attachments/");
    reveal_strlit("/");
    reveal_strlit("?");
    let m = attachments_marker();
    let u = cdn_url(host, channel, id, name, query);
    let hl = host.len() as int;
    let j = 8 + hl;
    let rest = channel + "/"@ + id + "/"@ + name;
    let path = "https://"@ + host + m + rest;
    let qpos = path.len() as int;
    assert(u =~= path + "?"@ + query);
    assert forall|k: int| 0 <= k < qpos implies #[trigger] u[k] != '?' && u[k] != '#' by {
        assert(u[k] == path[k]);
        if k >= 8 && k < j {
            assert(path[k] == host[k - 8]);
        } else if k >= j + 13 {
            let r = k - j - 13;
            assert(path[k] == rest[r]);
            if r < channel.len() {
                assert(rest[r] == channel[r]);
            } else if r > channel.len() && r < channel.len() + 1 + id.len() {
                assert(rest[r] == id[r - channel.len() - 1]);
            } else if r > channel.len() + 1 + id.len() {
                assert(rest[r] == name[r - channel.len() - 2 - id.len()]);
            }
        }
    }
    lemma_first_of_at_is(u, '?', '#', 0, qpos);
    assert(url_path(u) =~= path);
    // The first marker is the one after the host.
    assert(path.subrange(j, j + 13) =~= m);
    assert forall|k: int| 0 <= k < j && k + 13 <= path.len() implies #[trigger] path.subrange(k, k + 13) != m by {
        if path.subrange(k, k + 13) == m {
            assert(path[k] == m[0]);
            if k >= 8 {
                assert(path[k] == host[k - 8]);
            } else if k == 6 {
                assert(path[7] == m[1]);
            } else if k == 7 {
                assert(path.subrange(8, 8 + hl) =~= host);
                if 8 + hl < path.len() {
                    assert(path[8 + hl] == m[0]);
                }
                lemma_marker_needs_word(path, 7, host);
            } else {
                assert(path[k] == "https://"@[k]);
            }
        }
    }
    lemma_find_from_is(path, m, 0, j);
    assert(find_from(path, m, 0) == j);
    assert(path.skip(j + 13) =~= rest);
    let cl = channel.len() as int;
    let il = id.len() as int;
    // No marker inside the rest.
    assert forall|k: int| 0 <= k && k + 13 <= rest.len() implies #[trigger] rest.subrange(k, k + 13) != m by {
        if rest.subrange(k, k + 13) == m {
            assert(rest[k] == m[0]);
            if k < cl {
                assert(rest[k] == channel[k]);
            } else if cl < k < cl + 1 + il {
                assert(rest[k] == id[k - cl - 1]);
            } else if k > cl + 1 + il {
                assert(rest[k] == name[k - cl - 2 - il]);
            } else if k == cl {
                assert(rest.subrange(k + 1, k + 1 + il) =~= id);
                assert(rest[k + 1 + il] == '/');
                lemma_marker_needs_word(rest, k, id);
            } else {
                assert(k == cl + 1 + il);
                assert(rest[k + 12] == m[12]);
                assert(rest[k + 12] == name[k + 12 - cl - 2 - il]);
            }
        }
    }
    lemma_find_from_is(rest, m, 0, rest.len() as int);
    assert(rest.take(find_from(rest, m, 0)) =~= rest);
    assert(after_marker(path) == Some(rest));
    assert forall|k: int| 0 <= k < cl implies #[trigger] rest[k] != '/' by {
        assert(rest[k] == channel[k]);
    }
    lemma_first_at_is(rest, '/', 0, cl);
    assert forall|k: int| cl + 1 <= k < cl + 1 + il implies #[trigger] rest[k] != '/' by {
        assert(rest[k] == id[k - cl - 1]);
    }
    lemma_first_at_is(rest, '/', cl + 1, cl + 1 + il);
    assert forall|k: int| cl + 2 + il <= k < rest.len() implies #[trigger] rest[k] != '/' by {
        assert(rest[k] == name[k - cl - 2 - il]);
    }
    lemma_first_at_is(rest, '/', cl + 2 + il, rest.len() as int);
    assert(rest.subrange(cl + 1, cl + 1 + il) =~= id);
    assert(rest.subrange(cl + 2 + il, rest.len() as int) =~= name);
}

/// The extension of a filename: the text after its last `.`, or empty.
pub open spec fn extension(name: Seq<char>) -> Seq<char> {
    let k = last_at(name, '.', name.len() as int);
    if k < 0 {
        Seq::empty()
    } else {
        name.skip(k + 1)
    }
}

/// The MIME type leaf records for a (lowercased) file extension.
pub open spec fn content_type_for_ext(ext: Seq<char>) -> Seq<char> {
    if ext == "png"@ {
        "image/png"@
    } else if ext == "jpg"@ || ext == "jpeg"@ {
        "image/jpeg"@
    } else if ext == "gif"@ {
        "image/gif"@
    } else if ext == "webp"@ {
        "image/webp"@
    } else if ext == "mp4"@ {
        "video/mp4"@
    } else if ext == "webm"@ {
        "video/webm"@
    } else if ext == "mov"@ || ext == "qt"@ {
        "video/quicktime"@
    } else {
        "application/octet-stream"@
    }
}

fn is_ext(e: &Vec<char>, lit: &str) -> (r: bool)
    ensures
        r == (e@ == lit@),
{
    let t = chars_of(lit);
    crate::text::chars_eq(e.as_slice(), t.as_slice())
}

/// Guesses a MIME type from a filename extension (case-insensitively),
/// restricted to the formats leaf archives; anything else, or no extension,
/// is `application/octet-stream`.
pub fn guess_content_type(filename: &str) -> (r: String)
    ensures
        r@ == content_type_for_ext(lower_seq(extension(filename@))),
{
    let v = chars_of(filename);
    let ext_raw = match last_index_of(v.as_slice(), '.') {
        Some(k) => slice_chars(v.as_slice(), k + 1, v.len()),
        None => Vec::new(),
    };
    assert(ext_raw@ == extension(filename@));
    let e = lower_chars(ext_raw.as_slice());
    let t: &str = if is_ext(&e, "png") {
        "image/png"
    } else if is_ext(&e, "jpg") || is_ext(&e, "jpeg") {
        "image/jpeg"
    } else if is_ext(&e, "gif") {
        "image/gif"
    } else if is_ext(&e, "webp") {
        "image/webp"
    } else if is_ext(&e, "mp4") {
        "video/mp4"
    } else if is_ext(&e, "webm") {
        "video/webm"
    } else if is_ext(&e, "mov") || is_ext(&e, "qt") {
        "video/quicktime"
    } else {
        UNKNOWN_CONTENT_TYPE
    };
    t.to_owned()
}

/// Builds the attachment row for media whose bytes were successfully
/// re-fetched and stored in R2.
pub fn stored_attachment(
    attachment_id: &str,
    channel_id: &str,
    message_id: &str,
    content_type: &str,
    stored: &StoredMedia,
) -> (r: NewMediaAttachment)
    ensures
        r.attachment_id@ == attachment_id@,
        r.channel_id@ == channel_id@,
        r.message_id@ == message_id@,
        r.content_type@ == content_type@,
        r.original_key matches Some(k) && k@ == stored.original_key@,
        r.thumb_key matches Some(k) && k@ == stored.thumb_key@,
        !r.media_missing,
{
    NewMediaAttachment {
        attachment_id: attachment_id.to_owned(),
        channel_id: channel_id.to_owned(),
        message_id: message_id.to_owned(),
        content_type: content_type.to_owned(),
        original_key: Some(stored.original_key.clone()),
        thumb_key: Some(stored.thumb_key.clone()),
        media_missing: false,
    }
}

/// The hash std's `DefaultHasher::new()` gives a string (SipHash with
/// fixed keys over the string's bytes).
pub uninterp spec fn url_hash(url: Seq<char>) -> u64;

/// Hashes `url` with a fresh `DefaultHasher` (`Hash for str`, then
/// `finish`). Claimed: the result is `url_hash` of the text. std fixes the
/// keys of `DefaultHasher::new()`, so one build gives the same value in
/// every run; std does not promise the algorithm across releases.
#[verifier::external_body]
fn hash_url(url: &str) -> (r: u64)
    ensures
        r == url_hash(url@),
{
    let mut hasher = std::collections::hash_map::DefaultHasher::new();
    url.hash(&mut hasher);
    hasher.finish()
}

/// Lowercase hexadecimal digit for `d` in 0–15.
pub open spec fn hex_digit(d: int) -> char {
    if d < 10 {
        (d + 48) as char
    } else {
        (d + 87) as char
    }
}

/// The last `width` hexadecimal digits of `n`, zero-padded (`{:0width$x}`
/// for a value that fits).
pub open spec fn hex_fixed(n: nat, width: nat) -> Seq<char>
    decreases width,
{
    if width == 0 {
        Seq::empty()
    } else {
        hex_fixed(n / 16, (width - 1) as nat).push(hex_digit((n % 16) as int))
    }
}

fn push_hex_fixed(s: &mut String, n: u64, width: u32)
    ensures
        final(s)@ == old(s)@ + hex_fixed(n as nat, width as nat),
    decreases width,
{
    if width > 0 {
        push_hex_fixed(s, n / 16, width - 1);
        let d = (n % 16) as u8;
        let c: char = if d < 10 {
            (d + 48) as char
        } else {
            (d + 87) as char
        };
        push_char(s, c);
        assert(final(s)@ =~= old(s)@ + hex_fixed(n as nat, width as nat));
    }
}

/// `<message_id>-<16 hex digits of the URL's hash>`.
pub open spec fn synthetic_id_spec(message_id: Seq<char>, url: Seq<char>) -> Seq<char> {
    message_id + "-"@ + hex_fixed(url_hash(url) as nat, 16)
}

/// A deterministic stand-in attachment id for a non-CDN URL: the message id
/// plus a stable hash of the URL, so re-imports address the same row.
pub fn synthetic_attachment_id(message_id: &str, url: &str) -> (r: String)
    ensures
        r@ == synthetic_id_spec(message_id@, url@),
{
    let mut s = String::new();
    push_str(&mut s, message_id);
    push_str(&mut s, "-");
    let h = hash_url(url);
    push_hex_fixed(&mut s, h, 16);
    assert(s@ =~= synthetic_id_spec(message_id@, url@));
    s
}

/// The attachment id and content type recorded for a v2 media URL whose
/// bytes are gone: the CDN id and a type guessed from the filename, or a
/// synthetic id and the unknown type.
pub open spec fn missing_identity(url: Seq<char>, message_id: Seq<char>) -> (Seq<char>, Seq<char>) {
    match cdn_attachment_spec(url) {
        Some((id, name)) => (id, content_type_for_ext(lower_seq(extension(name)))),
        None => (synthetic_id_spec(message_id, url), "application/octet-stream"@),
    }
}

/// Builds a `media_missing` attachment row from a v2 CDN URL whose bytes can
/// no longer be fetched. Recovers the real attachment id and a guessed
/// content type when the URL is a parseable CDN link; otherwise synthesizes a
/// deterministic id (stable across re-runs) so the proxy can still address
/// the row.
pub fn missing_attachment_from_url(url: &str, channel_id: &str, message_id: &str) -> (r:
    NewMediaAttachment)
    ensures
        (r.attachment_id@, r.content_type@) == missing_identity(url@, message_id@),
        r.channel_id@ == channel_id@,
        r.message_id@ == message_id@,
        r.original_key is None,
        r.thumb_key is None,
        r.media_missing,
{
    let (attachment_id, content_type) = match parse_cdn_attachment(url) {
        Some((id, filename)) => (id, guess_content_type(filename.as_str())),
        None => (synthetic_attachment_id(message_id, url), UNKNOWN_CONTENT_TYPE.to_owned()),
    };
    NewMediaAttachment {
        attachment_id,
        channel_id: channel_id.to_owned(),
        message_id: message_id.to_owned(),
        content_type,
        original_key: None,
        thumb_key: None,
        media_missing: true,
    }
}

/// Builds a `media_missing` attachment row from live attachment metadata
/// (the message was fetched, but this attachment's bytes could not be stored).
pub fn missing_attachment_live(
    attachment_id: &str,
    channel_id: &str,
    message_id: &str,
    content_type: &str,
) -> (r: NewMediaAttachment)
    ensures
        r.attachment_id@ == attachment_id@,
        r.channel_id@ == channel_id@,
        r.message_id@ == message_id@,
        r.content_type@ == content_type@,
        r.original_key is None,
        r.thumb_key is None,
        r.media_missing,
{
    NewMediaAttachment {
        attachment_id: attachment_id.to_owned(),
        channel_id: channel_id.to_owned(),
        message_id: message_id.to_owned(),
        content_type: content_type.to_owned(),
        original_key: None,
        thumb_key: None,
        media_missing: true,
    }
}

} // verus!
