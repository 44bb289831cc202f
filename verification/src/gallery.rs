//! The gallery API's gates: session tokens from the `Authorization`
//! header, guild membership, per-series visibility, the day window of the
//! calendar grid, and which stored object a signed media URL serves.
//!
//! Every answer the caller may not see collapses to 404, so the API never
//! reveals the existence of a hidden series. Talking to Discord, the
//! database and object storage is the caller's I/O.

use vstd::prelude::*;

use crate::api_error::ApiError;
use crate::auth::{SessionKey, verify_spec};
use crate::domain::Series;
use crate::policy::{Viewer, can_view, can_view_spec};
use crate::store::DbError;
use crate::text::{has_prefix, trim, trim_str};

verus! {

/// Days the calendar grid shows when no window is given.
pub const DEFAULT_WINDOW: i64 = 35;

/// Longest day span one grid request may ask for.
pub const MAX_WINDOW: i64 = 366;

/// Cache policy of media responses: archive media never changes under a
/// key, so it is cached for a year.
pub const CACHE_CONTROL: &'static str = "public, max-age=31536000, immutable";

/// The identity a request carries: the user of a valid, unexpired
/// `Authorization: Bearer <token>` header.
pub open spec fn bearer_spec(key: Seq<u8>, header: Option<Seq<char>>, now: i64) -> Result<Seq<char>, ApiError> {
    match header {
        Some(h) => if has_prefix(h, "Bearer "@) {
            match verify_spec(key, trim(h.skip(7)), now) {
                Ok(u) => Ok(u),
                Err(_) => Err(ApiError::Unauthorized),
            }
        } else {
            Err(ApiError::Unauthorized)
        },
        None => Err(ApiError::Unauthorized),
    }
}

/// The text of an optional header value.
pub open spec fn header_text(header: Option<&str>) -> Option<Seq<char>> {
    match header {
        Some(h) => Some(h@),
        None => None,
    }
}

/// The authenticated caller: identity only (guild membership is checked
/// per route).
#[derive(Debug, Clone, PartialEq, Eq)]
pub struct AuthUser {
    /// Discord user snowflake.
    pub user_id: String,
}

impl AuthUser {
    /// The caller of a request, from its `Authorization` header value
    /// (absent when missing or not text); anything but a valid, unexpired
    /// `Bearer` session token is 401.
    pub fn from_header(key: &SessionKey, header: Option<&str>, now_unix: i64) -> (r: Result<AuthUser, ApiError>)
        ensures
            match r {
                Ok(u) => bearer_spec(key@, header_text(header), now_unix) == Ok::<Seq<char>, ApiError>(u.user_id@),
                Err(e) => bearer_spec(key@, header_text(header), now_unix) == Err::<Seq<char>, ApiError>(e),
            },
    {
        proof {
            reveal_strlit("Bearer ");
        }
        match header {
            Some(h) => {
                if crate::text::str_starts_with(h, "Bearer ") {
                    let hv = crate::text::chars_of(h);
                    let rest = crate::text::string_of(crate::text::slice_chars(hv.as_slice(), 7, hv.len()).as_slice());
                    assert(rest@ == h@.skip(7));
                    let token = crate::text::string_of(trim_str(rest.as_str()).as_slice());
                    match key.verify(token.as_str(), now_unix) {
                        Ok(u) => Ok(AuthUser { user_id: u }),
                        Err(_) => Err(ApiError::Unauthorized),
                    }
                } else {
                    Err(ApiError::Unauthorized)
                }
            },
            None => Err(ApiError::Unauthorized),
        }
    }
}

/// The membership gate of every guild-scoped route: a member's role ids; a
/// non-member is 403 and a failed lookup 500.
pub fn member_gate(lookup: Result<Option<Vec<String>>, String>) -> (r: Result<Vec<String>, ApiError>)
    ensures
        match lookup {
            Ok(Some(roles)) => r == Ok::<Vec<String>, ApiError>(roles),
            Ok(None) => r == Err::<Vec<String>, ApiError>(ApiError::Forbidden),
            Err(_) => r == Err::<Vec<String>, ApiError>(ApiError::Internal),
        },
{
    match lookup {
        Ok(Some(roles)) => Ok(roles),
        Ok(None) => Err(ApiError::Forbidden),
        Err(_) => Err(ApiError::Internal),
    }
}

/// A series the caller may see through the API, where every caller is a
/// non-admin member of guild `gid` with `roles`: it must exist, belong to
/// that guild and be visible to them; anything else is 404, and a store
/// failure 500.
pub fn api_viewable(
    loaded: Result<Option<Series>, DbError>,
    gid: &str,
    user_id: &str,
    roles: &[String],
) -> (r: Result<Series, ApiError>)
    ensures
        match loaded {
            Err(_) => r == Err::<Series, ApiError>(ApiError::Internal),
            Ok(None) => r == Err::<Series, ApiError>(ApiError::NotFound),
            Ok(Some(s)) => if s.guild_id@ == gid@ && can_view_spec(
                s,
                (Viewer { user_id, role_ids: roles, is_admin: false }),
            ) {
                r == Ok::<Series, ApiError>(s)
            } else {
                r == Err::<Series, ApiError>(ApiError::NotFound)
            },
        },
{
    match loaded {
        Err(_) => Err(ApiError::Internal),
        Ok(None) => Err(ApiError::NotFound),
        Ok(Some(s)) => {
            let viewer = Viewer { user_id, role_ids: roles, is_admin: false };
            if crate::text::str_eq(s.guild_id.as_str(), gid) && can_view(&s, &viewer) {
                Ok(s)
            } else {
                Err(ApiError::NotFound)
            }
        },
    }
}

/// The series of a guild listed to a non-admin member, in order.
pub open spec fn listed_upto(all: Seq<Series>, user_id: &str, roles: &[String], n: int) -> Seq<Series>
    decreases n,
{
    if n <= 0 {
        Seq::empty()
    } else {
        let prev = listed_upto(all, user_id, roles, n - 1);
        if can_view_spec(all[n - 1], (Viewer { user_id, role_ids: roles, is_admin: false })) {
            prev.push(all[n - 1])
        } else {
            prev
        }
    }
}

/// The guild's series a non-admin member may see, in order.
pub fn visible_series(all: Vec<Series>, user_id: &str, roles: &[String]) -> (r: Vec<Series>)
    ensures
        r@ == listed_upto(all@, user_id, roles, all@.len() as int),
{
    let ghost whole = all@;
    let viewer = Viewer { user_id, role_ids: roles, is_admin: false };
    let mut rest = all;
    let mut kept_rev: Vec<Series> = Vec::new();
    // Walk from the back so each series can be moved out, then restore the
    // order.
    let mut n: usize = rest.len();
    while n > 0
        invariant
            n == rest.len(),
            rest@ == whole.take(n as int),
            n <= whole.len(),
            viewer == (Viewer { user_id, role_ids: roles, is_admin: false }),
            listed_upto(whole, user_id, roles, whole.len() as int) == listed_upto(
                whole,
                user_id,
                roles,
                n as int,
            ) + kept_rev@.reverse(),
        decreases n,
    {
        let s = rest.pop().unwrap();
        proof {
            assert(s == whole[n - 1]);
            assert(rest@ =~= whole.take(n - 1));
        }
        if can_view(&s, &viewer) {
            kept_rev.push(s);
            proof {
                assert(kept_rev@.reverse() =~= seq![whole[n - 1]] + kept_rev@.drop_last().reverse());
            }
        }
        n = n - 1;
    }
    let mut out: Vec<Series> = Vec::new();
    let ghost kept = kept_rev@;
    while kept_rev.len() > 0
        invariant
            out@ + kept_rev@.reverse() == kept.reverse(),
        decreases kept_rev.len(),
    {
        let s = kept_rev.pop().unwrap();
        proof {
            assert(out@.push(s) + kept_rev@.reverse() =~= out@ + (kept_rev@.push(s)).reverse());
        }
        out.push(s);
    }
    proof {
        assert(kept_rev@.reverse() =~= Seq::<Series>::empty());
        assert(out@ =~= kept.reverse());
        assert(listed_upto(whole, user_id, roles, 0) =~= Seq::<Series>::empty());
    }
    out
}

/// The calendar grid's day window `(from, to)`: `to` defaults to the
/// newest archived day (0 when none), `from` to 35 days back from `to` but
/// not before the series start; a reversed window, or one spanning more
/// than 366 days, is a bad request.
pub open spec fn day_window_spec(from: Option<i64>, to: Option<i64>, max_day: Option<i64>, start_day: i64) -> Option<(i64, i64)> {
    let t: int = match to {
        Some(t) => t as int,
        None => match max_day {
            Some(m) => m as int,
            None => 0,
        },
    };
    let f: int = match from {
        Some(f) => f as int,
        None => if t - DEFAULT_WINDOW + 1 > start_day {
            t - DEFAULT_WINDOW + 1
        } else {
            start_day as int
        },
    };
    if f > t || t - f > MAX_WINDOW {
        None
    } else {
        Some((f as i64, t as i64))
    }
}

/// The day window of a grid request; `None` is a bad request.
pub fn day_window(from: Option<i64>, to: Option<i64>, max_day: Option<i64>, start_day: i64) -> (r: Option<(i64, i64)>)
    ensures
        r == day_window_spec(from, to, max_day, start_day),
{
    let t: i64 = match to {
        Some(t) => t,
        None => match max_day {
            Some(m) => m,
            None => 0,
        },
    };
    let f: i64 = match from {
        Some(f) => f,
        None => if (t as i128) - ((DEFAULT_WINDOW - 1) as i128) > start_day as i128 {
            t - (DEFAULT_WINDOW - 1)
        } else {
            start_day
        },
    };
    if f > t {
        return None;
    }
    if (t as i128) - (f as i128) > MAX_WINDOW as i128 {
        return None;
    }
    Some((f, t))
}

/// The query of a signed media URL.
#[derive(Debug, Clone)]
pub struct MediaQuery {
    /// Expiry (unix seconds) the signature was minted for.
    pub exp: i64,
    /// Base64 HMAC over the attachment id and expiry.
    pub sig: String,
    /// Any value selects the thumbnail variant.
    pub thumb: Option<String>,
}

impl MediaQuery {
    /// Whether the thumbnail is asked for: any `thumb` value selects it.
    pub fn wants_thumb(&self) -> (r: bool)
        ensures
            r == self.thumb is Some,
    {
        self.thumb.is_some()
    }
}

/// Where a stored attachment lives: its original key (none when the media
/// is missing), its thumbnail key, and its content type.
#[derive(Debug, Clone)]
pub struct MediaLocation {
    /// Object key of the original.
    pub original_key: Option<String>,
    /// Object key of the thumbnail.
    pub thumb_key: Option<String>,
    /// Content type of the original.
    pub content_type: String,
}

/// The object and content type a signed media URL serves: the thumbnail
/// (as WebP) when asked for, else the original; an unknown attachment or a
/// missing object is 404.
pub fn media_target(location: Option<MediaLocation>, want_thumb: bool) -> (r: Result<(String, String), ApiError>)
    ensures
        match location {
            None => r == Err::<(String, String), ApiError>(ApiError::NotFound),
            Some(l) => if want_thumb {
                match l.thumb_key {
                    Some(k) => r is Ok && r->Ok_0.0@ == k@ && r->Ok_0.1@ == "image/webp"@,
                    None => r == Err::<(String, String), ApiError>(ApiError::NotFound),
                }
            } else {
                match l.original_key {
                    Some(k) => r is Ok && r->Ok_0.0@ == k@ && r->Ok_0.1@ == l.content_type@,
                    None => r == Err::<(String, String), ApiError>(ApiError::NotFound),
                }
            },
        },
{
    match location {
        None => Err(ApiError::NotFound),
        Some(l) => {
            let MediaLocation { original_key, thumb_key, content_type } = l;
            if want_thumb {
                match thumb_key {
                    Some(k) => Ok((k, "image/webp".to_owned())),
                    None => Err(ApiError::NotFound),
                }
            } else {
                match original_key {
                    Some(k) => Ok((k, content_type)),
                    None => Err(ApiError::NotFound),
                }
            }
        },
    }
}

/// How a failed object fetch answers: a missing object is 404, anything
/// else 500.
pub fn store_failure(not_found: bool) -> (r: ApiError)
    ensures
        r == (if not_found {
            ApiError::NotFound
        } else {
            ApiError::Internal
        }),
{
    if not_found {
        ApiError::NotFound
    } else {
        ApiError::Internal
    }
}

} // verus!
