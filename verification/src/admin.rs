//! The admin panel's rules: guild scoping of an admin session, the OAuth
//! redirect and authorize URLs, and how settings and series patches apply.
//!
//! A browser OAuth login proves the caller manages a guild; the admin
//! token then authorizes editing exactly the guilds baked into it.

use vstd::prelude::*;
use vstd::utf8::encode_utf8;

use crate::api_error::ApiError;
use crate::domain::{GuildSettings, Privacy, Series, SeriesState};
use crate::text::{chars_of, push_char, push_str, string_of};

verus! {

/// Admin session lifetime in seconds: short, the panel is for occasional
/// changes.
pub const ADMIN_TTL_SECS: i64 = 3600;

/// How long a login may take to come back with its `state`, in seconds.
pub const OAUTH_STATE_TTL_SECS: i64 = 600;

/// OAuth scopes: identity plus the guild list (with per-guild permissions).
pub const SCOPES: &'static str = "identify guilds";

/// What an admin token grants.
#[derive(Debug, Clone, PartialEq, Eq)]
pub struct AdminClaims {
    /// The admin's user snowflake.
    pub user_id: String,
    /// Guilds the admin manages and leaf is in.
    pub guild_ids: Vec<String>,
}

/// The authenticated admin, from the `Authorization: Bearer` admin token.
pub struct AdminUser(pub AdminClaims);

impl AdminUser {
    /// Asserts the admin manages `gid`; otherwise the guild is hidden as
    /// not-found (never confirming it exists).
    pub fn require_guild(&self, gid: &str) -> (r: Result<(), ApiError>)
        ensures
            r is Ok <==> exists|i: int| 0 <= i < self.0.guild_ids.len() && #[trigger] self.0.guild_ids@[i]@ == gid@,
            r matches Err(e) ==> e == ApiError::NotFound,
    {
        let mut i: usize = 0;
        while i < self.0.guild_ids.len()
            invariant
                i <= self.0.guild_ids.len(),
                forall|k: int| 0 <= k < i ==> #[trigger] self.0.guild_ids@[k]@ != gid@,
            decreases self.0.guild_ids.len() - i,
        {
            if crate::text::str_eq(self.0.guild_ids[i].as_str(), gid) {
                return Ok(());
            }
            i = i + 1;
        }
        Err(ApiError::NotFound)
    }
}

/// `s` without its trailing `/` characters.
pub open spec fn trim_end_slashes(s: Seq<char>) -> Seq<char>
    decreases s.len(),
{
    if s.len() > 0 && s.last() == '/' {
        trim_end_slashes(s.drop_last())
    } else {
        s
    }
}

/// The admin OAuth callback URL under the public origin.
pub open spec fn redirect_uri_spec(public_url: Seq<char>) -> Seq<char> {
    trim_end_slashes(public_url) + "/admin/callback"@
}

/// The admin OAuth callback URL under `public_url` (trailing slashes
/// dropped).
pub fn admin_redirect_uri(public_url: &str) -> (r: String)
    ensures
        r@ == redirect_uri_spec(public_url@),
{
    let v = chars_of(public_url);
    let mut n = v.len();
    assert(v@.take(n as int) == v@);
    while n > 0 && v[n - 1] == '/'
        invariant
            n <= v.len(),
            v@ == public_url@,
            trim_end_slashes(public_url@) == trim_end_slashes(v@.take(n as int)),
        decreases n,
    {
        assert(v@.take(n as int).drop_last() == v@.take(n - 1));
        n = n - 1;
    }
    assert(v@.take(n as int) == v@.take(n as int));
    let mut out = string_of(crate::text::slice_chars(v.as_slice(), 0, n).as_slice());
    assert(out@ == v@.take(n as int));
    assert(trim_end_slashes(v@.take(n as int)) == v@.take(n as int));
    push_str(&mut out, "/admin/callback");
    out
}

/// An RFC 3986 unreserved byte, which percent-encoding keeps as is.
pub open spec fn is_unreserved(b: u8) -> bool {
    (65 <= b <= 90) || (97 <= b <= 122) || (48 <= b <= 57) || b == 45 || b == 95 || b == 46 || b
        == 126
}

/// Uppercase hexadecimal digit for `d` in 0–15.
pub open spec fn hex_upper(d: int) -> char {
    if d < 10 {
        (d + 48) as char
    } else {
        (d + 55) as char
    }
}

/// Percent-encoding of a byte string: unreserved bytes kept, every other
/// byte as `%XX` with uppercase hex.
pub open spec fn pct_bytes(b: Seq<u8>) -> Seq<char>
    decreases b.len(),
{
    if b.len() == 0 {
        Seq::empty()
    } else {
        let x = b.last();
        let prev = pct_bytes(b.drop_last());
        if is_unreserved(x) {
            prev.push(x as char)
        } else {
            prev + seq!['%', hex_upper(x as int / 16), hex_upper(x as int % 16)]
        }
    }
}

fn hex_upper_char(d: u8) -> (c: char)
    requires
        d < 16,
    ensures
        c == hex_upper(d as int),
{
    if d < 10 {
        (d + 48) as char
    } else {
        (d + 55) as char
    }
}

/// RFC 3986 percent-encoding for query values, over the UTF-8 bytes of `s`.
pub fn pct(s: &str) -> (r: String)
    ensures
        r@ == pct_bytes(encode_utf8(s@)),
{
    let bytes = s.as_bytes();
    let mut out = String::new();
    let mut i: usize = 0;
    while i < bytes.len()
        invariant
            i <= bytes.len(),
            bytes@ == encode_utf8(s@),
            out@ == pct_bytes(bytes@.take(i as int)),
        decreases bytes.len() - i,
    {
        let b = bytes[i];
        assert(bytes@.take(i + 1).drop_last() == bytes@.take(i as int));
        if (65 <= b && b <= 90) || (97 <= b && b <= 122) || (48 <= b && b <= 57) || b == 45 || b
            == 95 || b == 46 || b == 126 {
            push_char(&mut out, b as char);
        } else {
            push_char(&mut out, '%');
            push_char(&mut out, hex_upper_char(b / 16));
            push_char(&mut out, hex_upper_char(b % 16));
        }
        i = i + 1;
        assert(out@ =~= pct_bytes(bytes@.take(i as int)));
    }
    assert(bytes@.take(bytes.len() as int) == bytes@);
    out
}

/// The Discord consent-screen URL of an admin login.
pub open spec fn authorize_url_spec(client_id: Seq<char>, redirect: Seq<char>, state: Seq<char>) -> Seq<char> {
    "https://discord.com/oauth2/authorize?response_type=code&client_id="@ + pct_bytes(encode_utf8(client_id))
        + "&scope="@ + pct_bytes(encode_utf8(SCOPES@)) + "&redirect_uri="@ + pct_bytes(encode_utf8(redirect))
        + "&state="@ + pct_bytes(encode_utf8(state)) + "&prompt=none"@
}

/// The Discord consent-screen URL an admin login redirects to, with every
/// query value percent-encoded.
pub fn authorize_url(client_id: &str, redirect: &str, state: &str) -> (r: String)
    ensures
        r@ == authorize_url_spec(client_id@, redirect@, state@),
{
    let mut url = String::new();
    push_str(&mut url, "https://discord.com/oauth2/authorize?response_type=code&client_id=");
    let c = pct(client_id);
    push_str(&mut url, c.as_str());
    push_str(&mut url, "&scope=");
    let sc = pct(SCOPES);
    push_str(&mut url, sc.as_str());
    push_str(&mut url, "&redirect_uri=");
    let rd = pct(redirect);
    push_str(&mut url, rd.as_str());
    push_str(&mut url, "&state=");
    let st = pct(state);
    push_str(&mut url, st.as_str());
    push_str(&mut url, "&prompt=none");
    assert(url@ =~= authorize_url_spec(client_id@, redirect@, state@));
    url
}

/// The guilds an admin token is minted for: those the user manages that
/// leaf is in (`present[i]` for `manageable[i]`); none at all is
/// `Forbidden`.
pub fn admin_guilds(manageable: &Vec<String>, present: &Vec<bool>) -> (r: Result<Vec<String>, ApiError>)
    requires
        manageable.len() == present.len(),
    ensures
        match r {
            Ok(g) => g@.len() > 0 && g@ == kept_guilds(manageable@, present@, manageable.len() as int),
            Err(e) => e == ApiError::Forbidden && kept_guilds(manageable@, present@, manageable.len() as int).len() == 0,
        },
{
    let mut out: Vec<String> = Vec::new();
    let mut i: usize = 0;
    while i < manageable.len()
        invariant
            i <= manageable.len(),
            manageable.len() == present.len(),
            out@ == kept_guilds(manageable@, present@, i as int),
        decreases manageable.len() - i,
    {
        if present[i] {
            out.push(manageable[i].clone());
            assert(out@ =~= kept_guilds(manageable@, present@, i + 1));
        }
        i = i + 1;
    }
    if out.len() == 0 {
        Err(ApiError::Forbidden)
    } else {
        Ok(out)
    }
}

/// The first `n` guilds of `manageable` that are marked present, in order.
pub open spec fn kept_guilds(manageable: Seq<String>, present: Seq<bool>, n: int) -> Seq<String>
    decreases n,
{
    if n <= 0 {
        Seq::empty()
    } else if present[n - 1] {
        kept_guilds(manageable, present, n - 1).push(manageable[n - 1])
    } else {
        kept_guilds(manageable, present, n - 1)
    }
}

/// `None` for an empty string: how a patch clears an optional field.
pub fn none_if_empty(s: String) -> (r: Option<String>)
    ensures
        s@.len() == 0 ==> r is None,
        s@.len() > 0 ==> r == Some(s),
{
    if s.as_str().is_empty() {
        None
    } else {
        Some(s)
    }
}

/// A partial update of a guild's settings; absent fields are unchanged,
/// an empty role or channel clears it.
#[derive(Debug, Clone)]
pub struct SettingsPatch {
    /// New default timezone.
    pub timezone: Option<String>,
    /// New creator role (empty clears).
    pub creator_role_id: Option<String>,
    /// New log channel (empty clears).
    pub log_channel_id: Option<String>,
    /// New per-creator series cap.
    pub max_series_per_user: Option<i64>,
    /// New minimum account age.
    pub min_account_age_days: Option<i64>,
    /// New minimum membership age.
    pub min_membership_age_days: Option<i64>,
    /// Whether sprout probation is on.
    pub sprout_enabled: Option<bool>,
    /// New sprout promotion threshold.
    pub sprout_threshold: Option<i64>,
}

/// A patched optional text field: absent keeps, empty clears, else sets.
pub open spec fn patched_opt(old: Option<String>, p: Option<String>) -> Option<String> {
    match p {
        None => old,
        Some(v) => if v@.len() == 0 {
            None
        } else {
            Some(v)
        },
    }
}

/// A patched value: absent keeps, present replaces.
pub open spec fn patched<T>(old: T, p: Option<T>) -> T {
    match p {
        None => old,
        Some(v) => v,
    }
}

/// Applies a settings patch.
pub fn apply_settings(s: &mut GuildSettings, p: SettingsPatch)
    ensures
        final(s).guild_id == old(s).guild_id,
        final(s).setup_complete == old(s).setup_complete,
        final(s).watched_channels == old(s).watched_channels,
        final(s).active_persona == old(s).active_persona,
        final(s).timezone == patched(old(s).timezone, p.timezone),
        final(s).creator_role_id == patched_opt(old(s).creator_role_id, p.creator_role_id),
        final(s).log_channel_id == patched_opt(old(s).log_channel_id, p.log_channel_id),
        final(s).max_series_per_user == patched(old(s).max_series_per_user, p.max_series_per_user),
        final(s).min_account_age_days == patched(old(s).min_account_age_days, p.min_account_age_days),
        final(s).min_membership_age_days == patched(old(s).min_membership_age_days, p.min_membership_age_days),
        final(s).sprout_enabled == patched(old(s).sprout_enabled, p.sprout_enabled),
        final(s).sprout_threshold == patched(old(s).sprout_threshold, p.sprout_threshold),
{
    if let Some(v) = p.timezone {
        s.timezone = v;
    }
    if let Some(v) = p.creator_role_id {
        s.creator_role_id = none_if_empty(v);
    }
    if let Some(v) = p.log_channel_id {
        s.log_channel_id = none_if_empty(v);
    }
    if let Some(v) = p.max_series_per_user {
        s.max_series_per_user = v;
    }
    if let Some(v) = p.min_account_age_days {
        s.min_account_age_days = v;
    }
    if let Some(v) = p.min_membership_age_days {
        s.min_membership_age_days = v;
    }
    if let Some(v) = p.sprout_enabled {
        s.sprout_enabled = v;
    }
    if let Some(v) = p.sprout_threshold {
        s.sprout_threshold = v;
    }
}

/// A partial update of a series from the admin panel: privacy, its role,
/// and the lifecycle state (revocation).
#[derive(Debug, Clone)]
pub struct SeriesPatch {
    /// New privacy, as its text form.
    pub privacy: Option<String>,
    /// New privacy role (empty clears).
    pub privacy_role_id: Option<String>,
    /// New lifecycle state, as its text form.
    pub state: Option<String>,
}

/// Applies the row part of a series patch (privacy and role): an unknown
/// privacy is `BadRequest` and changes nothing. Returns whether the row
/// changed and must be written.
pub fn patch_series_row(series: &mut Series, p: &SeriesPatch) -> (r: Result<bool, ApiError>)
    ensures
        match p.privacy {
            Some(t) => Privacy::from_spec(t@) is None ==> r == Err::<bool, ApiError>(ApiError::BadRequest)
                && *final(series) == *old(series),
            None => true,
        },
        r is Ok ==> {
            &&& r == Ok::<bool, ApiError>(p.privacy is Some || p.privacy_role_id is Some)
            &&& final(series).privacy == match p.privacy {
                Some(t) => Privacy::from_spec(t@)->0,
                None => old(series).privacy,
            }
            &&& final(series).privacy_role_id == patched_opt(old(series).privacy_role_id, p.privacy_role_id)
            &&& final(series).id == old(series).id
            &&& final(series).guild_id == old(series).guild_id
            &&& final(series).state == old(series).state
        },
        r is Err <==> (p.privacy matches Some(t) && Privacy::from_spec(t@) is None),
{
    let edits_row = p.privacy.is_some() || p.privacy_role_id.is_some();
    if let Some(privacy) = &p.privacy {
        match Privacy::from_text(privacy.as_str()) {
            Ok(v) => {
                series.privacy = v;
            },
            Err(_) => {
                return Err(ApiError::BadRequest);
            },
        }
    }
    if let Some(role) = &p.privacy_role_id {
        series.privacy_role_id = none_if_empty(role.clone());
    }
    Ok(edits_row)
}

/// The state part of a series patch: `None` when it sets no state, else
/// the parsed state or `BadRequest` for an unknown one.
pub fn patch_series_state(p: &SeriesPatch) -> (r: Option<Result<SeriesState, ApiError>>)
    ensures
        match p.state {
            None => r is None,
            Some(t) => match SeriesState::from_spec(t@) {
                Some(st) => r == Some(Ok::<SeriesState, ApiError>(st)),
                None => r == Some(Err::<SeriesState, ApiError>(ApiError::BadRequest)),
            },
        },
{
    match &p.state {
        None => None,
        Some(t) => match SeriesState::from_text(t.as_str()) {
            Ok(st) => Some(Ok(st)),
            Err(_) => Some(Err(ApiError::BadRequest)),
        },
    }
}

/// A guild's settings as the admin panel shows them.
#[derive(Debug, Clone, PartialEq, Eq)]
pub struct AdminSettingsDto {
    /// Default timezone.
    pub timezone: String,
    /// Creator role, if any.
    pub creator_role_id: Option<String>,
    /// Log channel, if any.
    pub log_channel_id: Option<String>,
    /// Per-creator series cap.
    pub max_series_per_user: i64,
    /// Minimum account age in days.
    pub min_account_age_days: i64,
    /// Minimum membership age in days.
    pub min_membership_age_days: i64,
    /// Whether sprout probation is on.
    pub sprout_enabled: bool,
    /// Sprout promotion threshold.
    pub sprout_threshold: i64,
}

impl AdminSettingsDto {
    /// The panel view of a guild's settings.
    pub fn of(s: &GuildSettings) -> (r: AdminSettingsDto)
        ensures
            r.timezone == s.timezone,
            r.creator_role_id == s.creator_role_id,
            r.log_channel_id == s.log_channel_id,
            r.max_series_per_user == s.max_series_per_user,
            r.min_account_age_days == s.min_account_age_days,
            r.min_membership_age_days == s.min_membership_age_days,
            r.sprout_enabled == s.sprout_enabled,
            r.sprout_threshold == s.sprout_threshold,
    {
        AdminSettingsDto {
            timezone: s.timezone.clone(),
            creator_role_id: s.creator_role_id.clone(),
            log_channel_id: s.log_channel_id.clone(),
            max_series_per_user: s.max_series_per_user,
            min_account_age_days: s.min_account_age_days,
            min_membership_age_days: s.min_membership_age_days,
            sprout_enabled: s.sprout_enabled,
            sprout_threshold: s.sprout_threshold,
        }
    }
}

/// A series as the admin panel lists it.
#[derive(Debug, Clone, PartialEq, Eq)]
pub struct AdminSeriesDto {
    /// Database id.
    pub id: i64,
    /// Display name.
    pub name: String,
    /// Creator snowflake.
    pub creator_id: String,
    /// Privacy, as its text form.
    pub privacy: String,
    /// Privacy role, if any.
    pub privacy_role_id: Option<String>,
    /// Lifecycle state, as its text form.
    pub state: String,
}

impl AdminSeriesDto {
    /// The panel view of a series.
    pub fn of(s: &Series) -> (r: AdminSeriesDto)
        ensures
            r.id == s.id,
            r.name == s.name,
            r.creator_id == s.creator_id,
            r.privacy@ == s.privacy.text(),
            r.privacy_role_id == s.privacy_role_id,
            r.state@ == s.state.text(),
    {
        AdminSeriesDto {
            id: s.id,
            name: s.name.clone(),
            creator_id: s.creator_id.clone(),
            privacy: s.privacy.as_str().to_owned(),
            privacy_role_id: s.privacy_role_id.clone(),
            state: s.state.as_str().to_owned(),
        }
    }
}

} // verus!
