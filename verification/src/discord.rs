//! How the server reads Discord's REST answers: membership lookups and
//! their retries, join times, which roles can gate a series, and which
//! guilds a user may administer. Making the requests is the caller's I/O.

use vstd::prelude::*;

use crate::text::{parse_u64, parse_u64_spec, str_eq};

verus! {

/// How many times a rate-limited (429) member lookup is retried.
pub const MEMBER_LOOKUP_RETRIES: u8 = 2;

/// Discord's Manage-Guild permission bit.
pub const MANAGE_GUILD: u64 = 32;

/// Unix seconds of an RFC 3339 timestamp, as chrono's
/// `DateTime::parse_from_rfc3339` reads it; `None` when it rejects the text.
pub uninterp spec fn rfc3339_unix(text: Seq<char>) -> Option<i64>;

/// Parses with `chrono::DateTime::parse_from_rfc3339` and takes
/// `timestamp()`. Claimed: the result is `rfc3339_unix` of the text.
#[verifier::external_body]
fn rfc3339_seconds(text: &str) -> (r: Option<i64>)
    ensures
        r == rfc3339_unix(text@),
{
    chrono::DateTime::parse_from_rfc3339(text).ok().map(|dt| dt.timestamp())
}

/// A member's join time in unix seconds, from Discord's optional RFC 3339
/// `joined_at`; absent or unreadable is unknown.
pub fn joined_unix(raw: &Option<String>) -> (r: Option<i64>)
    ensures
        r == match raw {
            Some(s) => rfc3339_unix(s@),
            None => None,
        },
{
    match raw {
        Some(s) => rfc3339_seconds(s.as_str()),
        None => None,
    }
}

/// What a member lookup does with Discord's answer.
#[derive(Debug, Clone, Copy, PartialEq, Eq, Structural)]
pub enum MemberStep {
    /// Success: read the member.
    Read,
    /// 404: the user is not a member of the guild.
    NotMember,
    /// 429 with retries left: wait and ask again.
    Retry,
    /// Anything else: the lookup failed.
    Fail,
}

/// The next step of a member lookup, after `attempt` retries so far.
pub fn member_step(status: u16, attempt: u8) -> (r: MemberStep)
    ensures
        200 <= status < 300 ==> r == MemberStep::Read,
        status == 404 ==> r == MemberStep::NotMember,
        status == 429 && attempt < MEMBER_LOOKUP_RETRIES ==> r == MemberStep::Retry,
        !(200 <= status < 300) && status != 404 && !(status == 429 && attempt < MEMBER_LOOKUP_RETRIES)
            ==> r == MemberStep::Fail,
{
    if 200 <= status && status < 300 {
        MemberStep::Read
    } else if status == 404 {
        MemberStep::NotMember
    } else if status == 429 && attempt < MEMBER_LOOKUP_RETRIES {
        MemberStep::Retry
    } else {
        MemberStep::Fail
    }
}

/// A role as Discord lists it.
#[derive(Debug, Clone)]
pub struct RoleEntry {
    /// Role snowflake.
    pub id: String,
    /// Display name.
    pub name: String,
    /// Managed by a bot or integration.
    pub managed: bool,
}

/// A role that can gate a series: not `@everyone` (whose id is the guild's)
/// and not managed by a bot or integration.
pub open spec fn assignable(guild_id: Seq<char>, r: RoleEntry) -> bool {
    r.id@ != guild_id && !r.managed
}

/// `(id, name)` of the assignable roles among the first `n`, in order.
pub open spec fn assignable_upto(guild_id: Seq<char>, roles: Seq<RoleEntry>, n: int) -> Seq<(Seq<char>, Seq<char>)>
    decreases n,
{
    if n <= 0 {
        Seq::empty()
    } else {
        let prev = assignable_upto(guild_id, roles, n - 1);
        if assignable(guild_id, roles[n - 1]) {
            prev.push((roles[n - 1].id@, roles[n - 1].name@))
        } else {
            prev
        }
    }
}

/// The roles a series can be gated by, as `(id, name)`, in Discord's order.
pub fn assignable_roles(guild_id: &str, roles: &Vec<RoleEntry>) -> (r: Vec<(String, String)>)
    ensures
        r@.map_values(|p: (String, String)| (p.0@, p.1@)) == assignable_upto(guild_id@, roles@, roles.len() as int),
{
    let mut out: Vec<(String, String)> = Vec::new();
    let mut i: usize = 0;
    while i < roles.len()
        invariant
            i <= roles.len(),
            out@.map_values(|p: (String, String)| (p.0@, p.1@)) == assignable_upto(guild_id@, roles@, i as int),
        decreases roles.len() - i,
    {
        let r = &roles[i];
        if !str_eq(r.id.as_str(), guild_id) && !r.managed {
            out.push((r.id.clone(), r.name.clone()));
        }
        i = i + 1;
        assert(out@.map_values(|p: (String, String)| (p.0@, p.1@)) =~= assignable_upto(guild_id@, roles@, i as int));
    }
    out
}

/// A guild as Discord lists it for the current user.
#[derive(Debug, Clone)]
pub struct UserGuild {
    /// Guild snowflake.
    pub id: String,
    /// The user owns the guild.
    pub owner: bool,
    /// The user's permission bitfield there, as decimal text.
    pub permissions: String,
}

/// The user may administer the guild: they own it, or their permissions
/// include Manage Guild.
pub open spec fn manages(g: UserGuild) -> bool {
    g.owner || match parse_u64_spec(g.permissions@) {
        Some(p) => p & MANAGE_GUILD != 0,
        None => false,
    }
}

/// The ids of the guilds among the first `n` the user manages, in order.
pub open spec fn managed_upto(guilds: Seq<UserGuild>, n: int) -> Seq<Seq<char>>
    decreases n,
{
    if n <= 0 {
        Seq::empty()
    } else {
        let prev = managed_upto(guilds, n - 1);
        if manages(guilds[n - 1]) {
            prev.push(guilds[n - 1].id@)
        } else {
            prev
        }
    }
}

/// The guilds a user may administer, in Discord's order.
pub fn managed_guild_ids(guilds: &Vec<UserGuild>) -> (r: Vec<String>)
    ensures
        r@.map_values(|s: String| s@) == managed_upto(guilds@, guilds.len() as int),
{
    let mut out: Vec<String> = Vec::new();
    let mut i: usize = 0;
    while i < guilds.len()
        invariant
            i <= guilds.len(),
            out@.map_values(|s: String| s@) == managed_upto(guilds@, i as int),
        decreases guilds.len() - i,
    {
        let g = &guilds[i];
        let can = g.owner || match parse_u64(g.permissions.as_str()) {
            Some(p) => p & MANAGE_GUILD != 0,
            None => false,
        };
        if can {
            out.push(g.id.clone());
        }
        i = i + 1;
        assert(out@.map_values(|s: String| s@) =~= managed_upto(guilds@, i as int));
    }
    out
}

} // verus!
