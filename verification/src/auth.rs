//! API authentication: short-lived HMAC session tokens and signed media
//! URLs.
//!
//! A session token is `base64url(payload) "." base64url(hmac(payload))`
//! with payload `<user_id>:<expiry>`. Media URLs carry an HMAC over the
//! attachment id and expiry, so possession of a valid signed URL is the
//! capability. SHA-256, HMAC and base64 are the outside crates' work; the
//! token layout, checks and their order are proved here.

use base64::Engine;
use hmac::Mac;
use sha2::Digest;
use vstd::prelude::*;
use vstd::utf8::{decode_utf8, encode_utf8, valid_utf8};

use crate::text::{push_char, 
    chars_of, first_at, int_dec, last_at, last_index_of, index_of_char, parse_i64, parse_i64_spec,
    push_i64_dec, push_str, slice_chars, string_of,
};

verus! {

/// Default session lifetime in seconds (6 hours): long enough for a
/// gallery sitting, short enough that a leaked token expires on its own.
pub const SESSION_TTL_SECS: i64 = 21600;

/// SHA-256 of a byte string.
pub uninterp spec fn sha256(data: Seq<u8>) -> Seq<u8>;

/// HMAC-SHA256 tag of `msg` under `key`.
pub uninterp spec fn hmac_sha256(key: Seq<u8>, msg: Seq<u8>) -> Seq<u8>;

/// Unpadded URL-safe base64 (RFC 4648 §5) encoding of a byte string.
pub uninterp spec fn b64url_encode(data: Seq<u8>) -> Seq<char>;

/// Unpadded URL-safe base64 decoding; `None` when the text is not valid.
pub uninterp spec fn b64url_decode(text: Seq<char>) -> Option<Seq<u8>>;

/// A character of the URL-safe base64 alphabet (`A–Z a–z 0–9 - _`).
pub open spec fn is_b64url_char(c: char) -> bool {
    ('A' <= c && c <= 'Z') || ('a' <= c && c <= 'z') || ('0' <= c && c <= '9') || c == '-' || c
        == '_'
}

/// Hashes `data` with `sha2::Sha256::digest`. Claimed: the result is
/// `sha256` of the bytes.
#[verifier::external_body]
fn sha256_digest(data: &[u8]) -> (r: Vec<u8>)
    ensures
        r@ == sha256(data@),
{
    sha2::Sha256::digest(data).to_vec()
}

/// Computes `Hmac::<Sha256>::new_from_slice(key)`, `update(msg)`,
/// `finalize`. HMAC accepts keys of any length, so the constructor cannot
/// fail. Claimed: the tag is `hmac_sha256(key, msg)`, 32 bytes long.
#[verifier::external_body]
fn hmac_tag(key: &[u8], msg: &[u8]) -> (r: Vec<u8>)
    ensures
        r@ == hmac_sha256(key@, msg@),
        r@.len() == 32,
{
    match hmac::Hmac::<sha2::Sha256>::new_from_slice(key) {
        Ok(mut mac) => {
            mac.update(msg);
            mac.finalize().into_bytes().to_vec()
        },
        Err(_) => Vec::new(),
    }
}

/// Checks `tag` with `Mac::verify_slice` (constant-time; a tag of the
/// wrong length is rejected). Claimed: accepted exactly when `tag` equals
/// `hmac_sha256(key, msg)`.
#[verifier::external_body]
fn hmac_check(key: &[u8], msg: &[u8], tag: &[u8]) -> (r: bool)
    ensures
        r == (tag@ == hmac_sha256(key@, msg@)),
{
    match hmac::Hmac::<sha2::Sha256>::new_from_slice(key) {
        Ok(mut mac) => {
            mac.update(msg);
            mac.verify_slice(tag).is_ok()
        },
        Err(_) => false,
    }
}

/// Encodes with `base64::engine::general_purpose::URL_SAFE_NO_PAD`.
/// Claimed: the text is `b64url_encode` of the bytes, uses only the
/// URL-safe alphabet, and decodes back to the same bytes. The engine
/// panics only when the output length overflows `usize`, which the bound
/// on `data` rules out.
#[verifier::external_body]
fn b64_encode(data: &[u8]) -> (r: String)
    requires
        data@.len() <= usize::MAX / 2,
    ensures
        r@ == b64url_encode(data@),
        b64url_decode(r@) == Some(data@),
        forall|i: int| 0 <= i < r@.len() ==> is_b64url_char(#[trigger] r@[i]),
{
    base64::engine::general_purpose::URL_SAFE_NO_PAD.encode(data)
}

/// Decodes with `base64::engine::general_purpose::URL_SAFE_NO_PAD`.
/// Claimed: the result is `b64url_decode` of the text.
#[verifier::external_body]
fn b64_decode(text: &str) -> (r: Option<Vec<u8>>)
    ensures
        match r {
            Some(b) => b64url_decode(text@) == Some(b@),
            None => b64url_decode(text@) is None,
        },
{
    base64::engine::general_purpose::URL_SAFE_NO_PAD.decode(text).ok()
}

/// Reads bytes as UTF-8 with `std::str::from_utf8`. Claimed: it succeeds
/// exactly on valid UTF-8, and then yields the decoded characters.
#[verifier::external_body]
fn utf8_text(bytes: &[u8]) -> (r: Option<String>)
    ensures
        r is Some <==> valid_utf8(bytes@),
        r matches Some(s) ==> s@ == decode_utf8(bytes@),
{
    match std::str::from_utf8(bytes) {
        Ok(s) => Some(s.to_owned()),
        Err(_) => None,
    }
}

proof fn lemma_encode_utf8_len(chars: Seq<char>)
    ensures
        encode_utf8(chars).len() <= 4 * chars.len(),
    decreases chars.len(),
{
    if chars.len() > 0 {
        lemma_encode_utf8_len(chars.drop_first());
    }
}

fn concat_bytes(a: &[u8], b: &[u8]) -> (r: Vec<u8>)
    ensures
        r@ == a@ + b@,
{
    let mut r: Vec<u8> = Vec::new();
    let mut i: usize = 0;
    while i < a.len()
        invariant
            i <= a.len(),
            r@ == a@.take(i as int),
        decreases a.len() - i,
    {
        r.push(a[i]);
        i = i + 1;
        assert(r@ == a@.take(i as int));
    }
    let mut j: usize = 0;
    while j < b.len()
        invariant
            j <= b.len(),
            r@ == a@ + b@.take(j as int),
        decreases b.len() - j,
    {
        r.push(b[j]);
        j = j + 1;
        assert(r@ == a@ + b@.take(j as int));
    }
    assert(a@.take(a@.len() as int) == a@);
    assert(b@.take(b@.len() as int) == b@);
    r
}

/// Why a session token was rejected.
#[derive(Debug, Clone, Copy, PartialEq, Eq, Structural)]
pub enum AuthError {
    /// No / unparseable bearer token.
    Malformed,
    /// Signature did not verify (forged or wrong key).
    BadSignature,
    /// Token is past its expiry.
    Expired,
}

/// The text of an authentication error.
pub open spec fn auth_error_text(e: AuthError) -> Seq<char> {
    match e {
        AuthError::Malformed => "malformed session token"@,
        AuthError::BadSignature => "invalid session token signature"@,
        AuthError::Expired => "session token expired"@,
    }
}

impl AuthError {
    /// The error's message (its `Display` text).
    pub fn message(self) -> (r: &'static str)
        ensures
            r@ == auth_error_text(self),
    {
        match self {
            AuthError::Malformed => "malformed session token",
            AuthError::BadSignature => "invalid session token signature",
            AuthError::Expired => "session token expired",
        }
    }
}

/// The domain-separation prefix hashed in front of the client secret.
pub open spec fn key_context() -> Seq<char> {
    "leaf-session-key-v1\0"@
}

/// The session key derived from a client secret.
pub open spec fn derived_key(client_secret: Seq<char>) -> Seq<u8> {
    sha256(encode_utf8(key_context()) + encode_utf8(client_secret))
}

/// A session token's signed payload: `<user_id>:<expiry>`.
pub open spec fn token_payload(user_id: Seq<char>, exp: i64) -> Seq<char> {
    user_id + ":"@ + int_dec(exp as int)
}

/// The token minted for `user_id` expiring at `exp`.
pub open spec fn mint_spec(key: Seq<u8>, user_id: Seq<char>, exp: i64) -> Seq<char> {
    let p = encode_utf8(token_payload(user_id, exp));
    b64url_encode(p) + "."@ + b64url_encode(hmac_sha256(key, p))
}

/// What verifying `token` at time `now` answers: the two halves around the
/// first `.` must decode, the signature must match the payload, the payload
/// must be UTF-8 `<user_id>:<expiry>` (split at the last `:`), the expiry
/// must lie after `now`, and the user id must be non-empty.
pub open spec fn verify_spec(key: Seq<u8>, token: Seq<char>, now: i64) -> Result<Seq<char>, AuthError> {
    let dot = first_at(token, '.', 0);
    if dot >= token.len() {
        Err(AuthError::Malformed)
    } else {
        match (b64url_decode(token.take(dot)), b64url_decode(token.skip(dot + 1))) {
            (Some(payload), Some(sig)) => if sig != hmac_sha256(key, payload) {
                Err(AuthError::BadSignature)
            } else if !valid_utf8(payload) {
                Err(AuthError::Malformed)
            } else {
                let text = decode_utf8(payload);
                let k = last_at(text, ':', text.len() as int);
                if k < 0 {
                    Err(AuthError::Malformed)
                } else {
                    match parse_i64_spec(text.skip(k + 1)) {
                        None => Err(AuthError::Malformed),
                        Some(exp) => if now >= exp {
                            Err(AuthError::Expired)
                        } else if k == 0 {
                            Err(AuthError::Malformed)
                        } else {
                            Ok(text.take(k))
                        },
                    }
                }
            },
            _ => Err(AuthError::Malformed),
        }
    }
}

/// The signed payload of a media URL: `media\0<attachment_id>\0<expiry>`.
pub open spec fn media_payload(attachment_id: Seq<char>, exp: i64) -> Seq<char> {
    "media\0"@ + attachment_id + "\0"@ + int_dec(exp as int)
}

/// The lowercase hex digit for `n` (below 16).
pub open spec fn hex_digit(n: int) -> char {
    seq!['0', '1', '2', '3', '4', '5', '6', '7', '8', '9', 'a', 'b', 'c', 'd', 'e', 'f'][n]
}

/// Lowercase hex: two digits per byte, high nibble first.
pub open spec fn hex_encode(bytes: Seq<u8>) -> Seq<char> {
    Seq::new(
        2 * bytes.len(),
        |i: int|
            if i % 2 == 0 {
                hex_digit((bytes[i / 2] / 16) as int)
            } else {
                hex_digit((bytes[i / 2] % 16) as int)
            },
    )
}

/// The value of a hex digit, either case.
pub open spec fn hex_value(c: char) -> Option<u8> {
    if '0' <= c && c <= '9' {
        Some((c as u32 - '0' as u32) as u8)
    } else if 'a' <= c && c <= 'f' {
        Some((c as u32 - 'a' as u32 + 10) as u8)
    } else if 'A' <= c && c <= 'F' {
        Some((c as u32 - 'A' as u32 + 10) as u8)
    } else {
        None
    }
}

/// The bytes a hex text spells: `None` when its length is odd or a
/// character is not a hex digit.
pub open spec fn hex_decode(text: Seq<char>) -> Option<Seq<u8>> {
    if text.len() % 2 == 1 || exists|i: int| 0 <= i < text.len() && #[trigger] hex_value(text[i]) is None {
        None
    } else {
        Some(
            Seq::new(
                text.len() / 2,
                |i: int| (hex_value(text[2 * i])->0 * 16 + hex_value(text[2 * i + 1])->0) as u8,
            ),
        )
    }
}

/// The signature of a media URL: the lowercase hex of its HMAC.
pub open spec fn media_sig(key: Seq<u8>, attachment_id: Seq<char>, exp: i64) -> Seq<char> {
    hex_encode(hmac_sha256(key, encode_utf8(media_payload(attachment_id, exp))))
}

/// Whether a media signature is accepted at `now`: unexpired, decodable,
/// and the HMAC of this attachment id and expiry.
pub open spec fn media_sig_ok(key: Seq<u8>, attachment_id: Seq<char>, exp: i64, sig: Seq<char>, now: i64) -> bool {
    now < exp && match hex_decode(sig) {
        Some(tag) => tag == hmac_sha256(key, encode_utf8(media_payload(attachment_id, exp))),
        None => false,
    }
}

/// HMAC key for session tokens and media signatures.
///
/// Derived from the OAuth client secret so it is stable across restarts
/// (tokens survive a redeploy) without storing a separate secret. Rotating
/// the client secret invalidates live tokens.
#[derive(Clone)]
pub struct SessionKey(Vec<u8>);

impl View for SessionKey {
    type V = Seq<u8>;

    closed spec fn view(&self) -> Seq<u8> {
        self.0@
    }
}

fn decimal_of(n: i64) -> (r: String)
    ensures
        r@ == int_dec(n as int),
{
    crate::text::i64_to_string(n)
}

/// A minted token verifies, until it expires, as the user it was minted
/// for; at and after its expiry it is rejected as expired. (A token minted
/// for an empty user id never verifies.) Stated over the base64 facts the
/// encoder guarantees for the two encoded halves.
pub proof fn lemma_mint_verify_round_trip(key: Seq<u8>, user_id: Seq<char>, exp: i64, now: i64)
    requires
        ({
            let p = encode_utf8(token_payload(user_id, exp));
            let tag = hmac_sha256(key, p);
            &&& b64url_decode(b64url_encode(p)) == Some(p)
            &&& b64url_decode(b64url_encode(tag)) == Some(tag)
            &&& forall|i: int| 0 <= i < b64url_encode(p).len() ==> is_b64url_char(#[trigger] b64url_encode(p)[i])
        }),
    ensures
        verify_spec(key, mint_spec(key, user_id, exp), now) == if now >= exp {
            Err::<Seq<char>, AuthError>(AuthError::Expired)
        } else if user_id.len() == 0 {
            Err(AuthError::Malformed)
        } else {
            Ok(user_id)
        },
{
    let payload = token_payload(user_id, exp);
    let p = encode_utf8(payload);
    let tag = hmac_sha256(key, p);
    let e1 = b64url_encode(p);
    let e2 = b64url_encode(tag);
    let token = mint_spec(key, user_id, exp);
    reveal_strlit(".");
    reveal_strlit(":");
    assert(token == e1 + seq!['.'] + e2);
    assert forall|k: int| 0 <= k < e1.len() implies token[k] != '.' by {
        assert(token[k] == e1[k]);
        assert(is_b64url_char(e1[k]));
    }
    crate::text::lemma_first_at_found(token, '.', 0, e1.len() as int);
    assert(token.take(e1.len() as int) =~= e1);
    assert(token.skip(e1.len() as int + 1) =~= e2);
    vstd::utf8::encode_utf8_valid_utf8(payload);
    vstd::utf8::encode_utf8_decode_utf8(payload);
    crate::text::lemma_int_dec_chars(exp as int);
    let digits = int_dec(exp as int);
    assert(payload == user_id + seq![':'] + digits);
    assert forall|k: int| user_id.len() < k < payload.len() implies payload[k] != ':' by {
        assert(payload[k] == digits[k - user_id.len() - 1]);
        assert(crate::text::is_digit(digits[k - user_id.len() - 1]) || digits[k - user_id.len() - 1] == '-');
    }
    crate::text::lemma_last_at_found(payload, ':', user_id.len() as int, payload.len() as int);
    assert(payload.skip(user_id.len() as int + 1) =~= digits);
    assert(payload.take(user_id.len() as int) =~= user_id);
    crate::text::lemma_parse_i64_int_dec(exp);
}

/// A token whose second half is not the HMAC of its first half under the
/// key is rejected as a bad signature, whatever the time: forged payloads,
/// tampered user ids and tokens of another key all fail here. Stated over
/// the base64 facts the encoder guarantees for the two halves.
pub proof fn lemma_wrong_tag_rejected(key: Seq<u8>, payload: Seq<u8>, tag: Seq<u8>, now: i64)
    requires
        b64url_decode(b64url_encode(payload)) == Some(payload),
        b64url_decode(b64url_encode(tag)) == Some(tag),
        forall|i: int| 0 <= i < b64url_encode(payload).len() ==> is_b64url_char(#[trigger] b64url_encode(payload)[i]),
        tag != hmac_sha256(key, payload),
    ensures
        verify_spec(key, b64url_encode(payload) + "."@ + b64url_encode(tag), now) == Err::<Seq<char>, AuthError>(
            AuthError::BadSignature,
        ),
{
    let e1 = b64url_encode(payload);
    let e2 = b64url_encode(tag);
    let token = e1 + "."@ + e2;
    reveal_strlit(".");
    assert(token == e1 + seq!['.'] + e2);
    assert forall|k: int| 0 <= k < e1.len() implies token[k] != '.' by {
        assert(token[k] == e1[k]);
        assert(is_b64url_char(e1[k]));
    }
    crate::text::lemma_first_at_found(token, '.', 0, e1.len() as int);
    assert(token.take(e1.len() as int) =~= e1);
    assert(token.skip(e1.len() as int + 1) =~= e2);
}

/// A token minted under one key is rejected as a bad signature under any
/// key whose HMAC of the payload differs.
pub proof fn lemma_other_key_rejects(key: Seq<u8>, other: Seq<u8>, user_id: Seq<char>, exp: i64, now: i64)
    requires
        ({
            let p = encode_utf8(token_payload(user_id, exp));
            let tag = hmac_sha256(key, p);
            &&& b64url_decode(b64url_encode(p)) == Some(p)
            &&& b64url_decode(b64url_encode(tag)) == Some(tag)
            &&& forall|i: int| 0 <= i < b64url_encode(p).len() ==> is_b64url_char(#[trigger] b64url_encode(p)[i])
            &&& hmac_sha256(other, p) != tag
        }),
    ensures
        verify_spec(other, mint_spec(key, user_id, exp), now) == Err::<Seq<char>, AuthError>(AuthError::BadSignature),
{
    let p = encode_utf8(token_payload(user_id, exp));
    lemma_wrong_tag_rejected(other, p, hmac_sha256(key, p), now);
}

/// A media signature is bound to its attachment id and expiry: it is
/// refused for any other id or expiry whose HMAC differs.
pub proof fn lemma_media_sig_binds(key: Seq<u8>, attachment_id: Seq<char>, exp: i64, other_id: Seq<char>, other_exp: i64, now: i64)
    requires
        hmac_sha256(key, encode_utf8(media_payload(other_id, other_exp))) != hmac_sha256(
            key,
            encode_utf8(media_payload(attachment_id, exp)),
        ),
    ensures
        !media_sig_ok(key, other_id, other_exp, media_sig(key, attachment_id, exp), now),
{
    lemma_hex_round_trip(hmac_sha256(key, encode_utf8(media_payload(attachment_id, exp))));
}

/// A media signature verifies for the attachment and expiry it was made
/// for exactly while unexpired.
pub proof fn lemma_media_sign_verify_round_trip(key: Seq<u8>, attachment_id: Seq<char>, exp: i64)
    ensures
        forall|now: i64| #[trigger] media_sig_ok(key, attachment_id, exp, media_sig(key, attachment_id, exp), now) == (now < exp),
{
    lemma_hex_round_trip(hmac_sha256(key, encode_utf8(media_payload(attachment_id, exp))));
}

/// Hex decoding gives back the bytes that were encoded.
pub proof fn lemma_hex_round_trip(bytes: Seq<u8>)
    ensures
        hex_decode(hex_encode(bytes)) == Some(bytes),
{
    let t = hex_encode(bytes);
    assert forall|i: int| 0 <= i < t.len() implies #[trigger] hex_value(t[i]) == Some(
        (if i % 2 == 0 { bytes[i / 2] / 16 } else { bytes[i / 2] % 16 }) as u8,
    ) by {
        let n: int = if i % 2 == 0 { (bytes[i / 2] / 16) as int } else { (bytes[i / 2] % 16) as int };
        assert(0 <= n < 16);
        lemma_hex_digit_value(n);
    }
    assert(t.len() % 2 == 0);
    assert(!exists|i: int| 0 <= i < t.len() && #[trigger] hex_value(t[i]) is None);
    let d = Seq::new(t.len() / 2, |i: int| (hex_value(t[2 * i])->0 * 16 + hex_value(t[2 * i + 1])->0) as u8);
    assert forall|i: int| 0 <= i < bytes.len() implies d[i] == bytes[i] by {
        assert(hex_value(t[2 * i]) == Some((bytes[i] / 16) as u8));
        assert(hex_value(t[2 * i + 1]) == Some((bytes[i] % 16) as u8));
    }
    assert(d =~= bytes);
}

proof fn lemma_hex_digit_value(n: int)
    requires
        0 <= n < 16,
    ensures
        hex_value(hex_digit(n)) == Some(n as u8),
        '0' <= hex_digit(n) <= '9' || 'a' <= hex_digit(n) <= 'f',
{
    let d = seq!['0', '1', '2', '3', '4', '5', '6', '7', '8', '9', 'a', 'b', 'c', 'd', 'e', 'f'];
    assert(hex_digit(n) == d[n]);
    assert(d[0] == '0' && d[1] == '1' && d[2] == '2' && d[3] == '3' && d[4] == '4');
    assert(d[5] == '5' && d[6] == '6' && d[7] == '7' && d[8] == '8' && d[9] == '9');
    assert(d[10] == 'a' && d[11] == 'b' && d[12] == 'c' && d[13] == 'd' && d[14] == 'e' && d[15] == 'f');
}

/// Lowercase hex of `bytes`.
fn hex_of(bytes: &[u8]) -> (r: String)
    ensures
        r@ == hex_encode(bytes@),
{
    let digits: [char; 16] = ['0', '1', '2', '3', '4', '5', '6', '7', '8', '9', 'a', 'b', 'c', 'd', 'e', 'f'];
    assert(digits@ == seq!['0', '1', '2', '3', '4', '5', '6', '7', '8', '9', 'a', 'b', 'c', 'd', 'e', 'f']);
    let mut out = String::new();
    let mut i: usize = 0;
    while i < bytes.len()
        invariant
            i <= bytes.len(),
            digits@ == seq!['0', '1', '2', '3', '4', '5', '6', '7', '8', '9', 'a', 'b', 'c', 'd', 'e', 'f'],
            out@ =~= hex_encode(bytes@.take(i as int)),
        decreases bytes.len() - i,
    {
        let b = bytes[i];
        push_char(&mut out, digits[(b / 16) as usize]);
        push_char(&mut out, digits[(b % 16) as usize]);
        i = i + 1;
        assert(out@ =~= hex_encode(bytes@.take(i as int)));
    }
    assert(bytes@.take(i as int) =~= bytes@);
    out
}

/// The value of one hex digit, either case.
fn hex_value_of(c: char) -> (r: Option<u8>)
    ensures
        r == hex_value(c),
{
    if '0' <= c && c <= '9' {
        Some((c as u32 - '0' as u32) as u8)
    } else if 'a' <= c && c <= 'f' {
        Some((c as u32 - 'a' as u32 + 10) as u8)
    } else if 'A' <= c && c <= 'F' {
        Some((c as u32 - 'A' as u32 + 10) as u8)
    } else {
        None
    }
}

/// The bytes a hex text spells, or `None`.
fn hex_bytes(text: &str) -> (r: Option<Vec<u8>>)
    ensures
        match r {
            Some(b) => hex_decode(text@) == Some(b@),
            None => hex_decode(text@) is None,
        },
{
    let cs = chars_of(text);
    if cs.len() % 2 == 1 {
        return None;
    }
    let mut out: Vec<u8> = Vec::new();
    let mut i: usize = 0;
    while i < cs.len() / 2
        invariant
            cs@ == text@,
            cs.len() % 2 == 0,
            i <= cs.len() / 2,
            out@.len() == i,
            forall|j: int| 0 <= j < 2 * i ==> #[trigger] hex_value(cs@[j]) is Some,
            forall|j: int| 0 <= j < i ==> out@[j] == (hex_value(cs@[2 * j])->0 * 16 + hex_value(cs@[2 * j + 1])->0) as u8,
        decreases cs.len() / 2 - i,
    {
        let hi = match hex_value_of(cs[2 * i]) {
            Some(v) => v,
            None => return None,
        };
        let lo = match hex_value_of(cs[2 * i + 1]) {
            Some(v) => v,
            None => return None,
        };
        assert(hi < 16 && lo < 16);
        out.push(hi * 16 + lo);
        i = i + 1;
    }
    let ghost d = Seq::new(text@.len() / 2, |j: int| (hex_value(text@[2 * j])->0 * 16 + hex_value(text@[2 * j + 1])->0) as u8);
    assert(out@ =~= d);
    Some(out)
}

impl SessionKey {
    /// Derives the key from the client secret: SHA-256 of a fixed context
    /// string followed by the secret.
    pub fn derive(client_secret: &str) -> (r: SessionKey)
        ensures
            r@ == derived_key(client_secret@),
    {
        let data = concat_bytes("leaf-session-key-v1\0".as_bytes(), client_secret.as_bytes());
        SessionKey(sha256_digest(data.as_slice()))
    }

    /// Mints a token for `user_id` valid for `ttl_secs` from `now_unix`.
    pub fn mint(&self, user_id: &str, now_unix: i64, ttl_secs: i64) -> (r: String)
        requires
            i64::MIN <= now_unix + ttl_secs <= i64::MAX,
            user_id@.len() <= usize::MAX / 16,
        ensures
            r@ == mint_spec(self@, user_id@, (now_unix + ttl_secs) as i64),
            forall|now: i64| #[trigger] verify_spec(self@, r@, now) == if now >= now_unix + ttl_secs {
                Err::<Seq<char>, AuthError>(AuthError::Expired)
            } else if user_id@.len() == 0 {
                Err(AuthError::Malformed)
            } else {
                Ok(user_id@)
            },
    {
        let exp = now_unix + ttl_secs;
        let mut payload = String::new();
        push_str(&mut payload, user_id);
        push_str(&mut payload, ":");
        push_i64_dec(&mut payload, exp);
        assert(payload@ =~= token_payload(user_id@, exp));
        proof {
            reveal_strlit(":");
            lemma_encode_utf8_len(payload@);
            crate::text::lemma_nat_dec_len_bound(exp as int);
        }
        let bytes = payload.as_str().as_bytes();
        assert(payload@.len() <= user_id@.len() + 21);
        assert(bytes@.len() <= 4 * (user_id@.len() + 21));
        assert(bytes@.len() <= usize::MAX / 2);
        let tag = hmac_tag(self.0.as_slice(), bytes);
        let mut token = b64_encode(bytes);
        push_str(&mut token, ".");
        let sig = b64_encode(tag.as_slice());
        push_str(&mut token, sig.as_str());
        assert(token@ =~= mint_spec(self@, user_id@, exp));
        assert forall|now: i64| #[trigger] verify_spec(self@, token@, now) == if now >= exp {
            Err::<Seq<char>, AuthError>(AuthError::Expired)
        } else if user_id@.len() == 0 {
            Err(AuthError::Malformed)
        } else {
            Ok(user_id@)
        } by {
            lemma_mint_verify_round_trip(self@, user_id@, exp, now);
        }
        token
    }

    /// Verifies a token and returns its `user_id` if the signature is valid
    /// and it has not expired as of `now_unix`.
    pub fn verify(&self, token: &str, now_unix: i64) -> (r: Result<String, AuthError>)
        ensures
            match r {
                Ok(u) => verify_spec(self@, token@, now_unix) == Ok::<Seq<char>, AuthError>(u@),
                Err(e) => verify_spec(self@, token@, now_unix) == Err::<Seq<char>, AuthError>(e),
            },
    {
        let t = chars_of(token);
        let dot = index_of_char(t.as_slice(), '.', 0);
        if dot >= t.len() {
            return Err(AuthError::Malformed);
        }
        let head = string_of(slice_chars(t.as_slice(), 0, dot).as_slice());
        let tail = string_of(slice_chars(t.as_slice(), dot + 1, t.len()).as_slice());
        assert(head@ == token@.take(dot as int));
        assert(tail@ == token@.skip(dot + 1));
        let payload = match b64_decode(head.as_str()) {
            Some(p) => p,
            None => return Err(AuthError::Malformed),
        };
        let sig = match b64_decode(tail.as_str()) {
            Some(s) => s,
            None => return Err(AuthError::Malformed),
        };
        if !hmac_check(self.0.as_slice(), payload.as_slice(), sig.as_slice()) {
            return Err(AuthError::BadSignature);
        }
        let text = match utf8_text(payload.as_slice()) {
            Some(s) => s,
            None => return Err(AuthError::Malformed),
        };
        let tc = chars_of(text.as_str());
        let k = match last_index_of(tc.as_slice(), ':') {
            Some(k) => k,
            None => return Err(AuthError::Malformed),
        };
        let exp_text = string_of(slice_chars(tc.as_slice(), k + 1, tc.len()).as_slice());
        assert(exp_text@ == text@.skip(k + 1));
        let exp = match parse_i64(exp_text.as_str()) {
            Some(e) => e,
            None => return Err(AuthError::Malformed),
        };
        if now_unix >= exp {
            return Err(AuthError::Expired);
        }
        if k == 0 {
            return Err(AuthError::Malformed);
        }
        let user = string_of(slice_chars(tc.as_slice(), 0, k).as_slice());
        assert(user@ == text@.take(k as int));
        Ok(user)
    }

    /// Signs access to one attachment until `exp` (unix): the lowercase hex
    /// HMAC (64 digits) to place in the URL's `sig` query parameter.
    pub fn sign_media(&self, attachment_id: &str, exp: i64) -> (r: String)
        ensures
            r@ == media_sig(self@, attachment_id@, exp),
            r@.len() == 64,
            forall|i: int| 0 <= i < r@.len() ==> ('0' <= #[trigger] r@[i] <= '9' || 'a' <= r@[i] <= 'f'),
            forall|now: i64| #[trigger] media_sig_ok(self@, attachment_id@, exp, r@, now) == (now < exp),
    {
        let mut payload = String::new();
        push_str(&mut payload, "media\0");
        push_str(&mut payload, attachment_id);
        push_str(&mut payload, "\0");
        push_i64_dec(&mut payload, exp);
        assert(payload@ =~= media_payload(attachment_id@, exp));
        let tag = hmac_tag(self.0.as_slice(), payload.as_str().as_bytes());
        let r = hex_of(tag.as_slice());
        proof {
            lemma_media_sign_verify_round_trip(self@, attachment_id@, exp);
            assert forall|i: int| 0 <= i < r@.len() implies ('0' <= #[trigger] r@[i] <= '9' || 'a' <= r@[i] <= 'f') by {
                let n: int = if i % 2 == 0 { (tag@[i / 2] / 16) as int } else { (tag@[i / 2] % 16) as int };
                lemma_hex_digit_value(n);
            }
        }
        r
    }

    /// Verifies a media signature for `attachment_id`, unexpired at `now`.
    pub fn verify_media(&self, attachment_id: &str, exp: i64, sig: &str, now_unix: i64) -> (r: bool)
        ensures
            r == media_sig_ok(self@, attachment_id@, exp, sig@, now_unix),
    {
        if now_unix >= exp {
            return false;
        }
        let tag = match hex_bytes(sig) {
            Some(t) => t,
            None => return false,
        };
        let mut payload = String::new();
        push_str(&mut payload, "media\0");
        push_str(&mut payload, attachment_id);
        push_str(&mut payload, "\0");
        push_i64_dec(&mut payload, exp);
        assert(payload@ =~= media_payload(attachment_id@, exp));
        hmac_check(self.0.as_slice(), payload.as_str().as_bytes(), tag.as_slice())
    }
}

/// `/api/media/<id>?exp=<exp>&sig=<sig>`.
pub open spec fn media_url(attachment_id: Seq<char>, exp: i64, sig: Seq<char>) -> Seq<char> {
    "/api/media/"@ + attachment_id + "?exp="@ + int_dec(exp as int) + "&sig="@ + sig
}

/// `/api/media/<id>?thumb=1&exp=<exp>&sig=<sig>`.
pub open spec fn thumb_url(attachment_id: Seq<char>, exp: i64, sig: Seq<char>) -> Seq<char> {
    "/api/media/"@ + attachment_id + "?thumb=1&exp="@ + int_dec(exp as int) + "&sig="@ + sig
}

/// Builds signed media URL pairs (full + thumbnail) for one viewing
/// session; carries the key and a shared expiry so DTOs stay key-free.
pub struct MediaSigner<'a> {
    key: &'a SessionKey,
    exp: i64,
}

impl<'a> MediaSigner<'a> {
    /// The key the signer signs with.
    pub closed spec fn key_view(&self) -> Seq<u8> {
        self.key@
    }

    /// The shared expiry of the URLs it signs.
    pub closed spec fn expiry(&self) -> i64 {
        self.exp
    }

    /// A signer valid for `ttl_secs` from `now_unix`.
    pub fn new(key: &'a SessionKey, now_unix: i64, ttl_secs: i64) -> (r: MediaSigner<'a>)
        requires
            i64::MIN <= now_unix + ttl_secs <= i64::MAX,
        ensures
            r.key_view() == key@,
            r.expiry() == now_unix + ttl_secs,
    {
        MediaSigner { key, exp: now_unix + ttl_secs }
    }

    /// `(full_url, thumb_url)` for an attachment, both signed.
    pub fn urls(&self, attachment_id: &str) -> (r: (String, String))
        ensures
            r.0@ == media_url(attachment_id@, self.expiry(), media_sig(self.key_view(), attachment_id@, self.expiry())),
            r.1@ == thumb_url(attachment_id@, self.expiry(), media_sig(self.key_view(), attachment_id@, self.expiry())),
    {
        let sig = self.key.sign_media(attachment_id, self.exp);
        let exp = decimal_of(self.exp);
        let mut full = String::new();
        push_str(&mut full, "/api/media/");
        push_str(&mut full, attachment_id);
        push_str(&mut full, "?exp=");
        push_str(&mut full, exp.as_str());
        push_str(&mut full, "&sig=");
        push_str(&mut full, sig.as_str());
        let mut thumb = String::new();
        push_str(&mut thumb, "/api/media/");
        push_str(&mut thumb, attachment_id);
        push_str(&mut thumb, "?thumb=1&exp=");
        push_str(&mut thumb, exp.as_str());
        push_str(&mut thumb, "&sig=");
        push_str(&mut thumb, sig.as_str());
        assert(full@ =~= media_url(attachment_id@, self.exp, sig@));
        assert(thumb@ =~= thumb_url(attachment_id@, self.exp, sig@));
        (full, thumb)
    }
}

} // verus!
