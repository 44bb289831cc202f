//! Policy logic: who may create a series, and who may view one.
//!
//! Free of Discord types so every rule is table-testable; callers adapt
//! interaction data into these inputs.

use vstd::prelude::*;

use crate::domain::{GuildSettings, Privacy, Series, SeriesState};
use crate::text::{int_dec, push_i64_dec, push_str, str_eq};

verus! {

/// Facts about the would-be creator at creation time.
#[derive(Debug, Clone)]
pub struct CreationContext {
    /// Current unix time.
    pub now_unix: i64,
    /// Creator's Discord account creation time (from the snowflake).
    pub account_created_unix: i64,
    /// When the creator joined the guild, if known.
    pub joined_unix: Option<i64>,
    /// Their live (non-revoked) series count in this guild.
    pub live_series_count: i64,
    /// Whether they hold the configured creator role; `None` when the
    /// guild has no role requirement.
    pub has_creator_role: Option<bool>,
}

/// Why creation was refused. [`PolicyViolation::message`] is the
/// user-facing text.
#[derive(Debug, Clone, PartialEq, Eq, Structural)]
pub enum PolicyViolation {
    /// Too many live series already.
    MaxSeries(i64),
    /// Discord account is younger than the policy requires.
    AccountTooNew(i64),
    /// Guild membership is younger than the policy requires.
    MembershipTooNew(i64),
    /// The guild requires a creator role the user lacks.
    MissingCreatorRole,
    /// The chosen channel is not in the guild's watched list.
    ChannelNotWatched,
}

/// Seconds in a day.
pub const DAY_SECS: i64 = 86_400;

/// Integer division rounding toward zero (Rust's `/` on integers), for a
/// positive divisor.
pub open spec fn div_trunc(a: int, b: int) -> int {
    if a >= 0 {
        a / b
    } else {
        -((-a) / b)
    }
}

/// Creation policy, first violation wins: the creator role, then the live
/// series limit, then account age, then membership age (an unknown join
/// time counts as joining now). Ages are whole days, rounded toward zero.
pub open spec fn check_creation_spec(
    settings: GuildSettings,
    ctx: CreationContext,
) -> Result<(), PolicyViolation> {
    if ctx.has_creator_role == Some(false) {
        Err(PolicyViolation::MissingCreatorRole)
    } else if ctx.live_series_count >= settings.max_series_per_user {
        Err(PolicyViolation::MaxSeries(settings.max_series_per_user))
    } else if settings.min_account_age_days > 0 && div_trunc(
        ctx.now_unix - ctx.account_created_unix,
        DAY_SECS as int,
    ) < settings.min_account_age_days {
        Err(PolicyViolation::AccountTooNew(settings.min_account_age_days))
    } else if settings.min_membership_age_days > 0 && div_trunc(
        ctx.now_unix - joined_or_now(ctx),
        DAY_SECS as int,
    ) < settings.min_membership_age_days {
        Err(PolicyViolation::MembershipTooNew(settings.min_membership_age_days))
    } else {
        Ok(())
    }
}

/// The join time, or now when unknown.
pub open spec fn joined_or_now(ctx: CreationContext) -> i64 {
    match ctx.joined_unix {
        Some(j) => j,
        None => ctx.now_unix,
    }
}

/// The age differences `check_creation` computes fit in an `i64`.
pub open spec fn creation_ages_fit(settings: GuildSettings, ctx: CreationContext) -> bool {
    &&& settings.min_account_age_days > 0 ==> i64::MIN <= ctx.now_unix - ctx.account_created_unix
        <= i64::MAX
    &&& settings.min_membership_age_days > 0 ==> i64::MIN <= ctx.now_unix - joined_or_now(ctx)
        <= i64::MAX
}

fn days_between(later: i64, earlier: i64) -> (r: i64)
    requires
        i64::MIN <= later - earlier <= i64::MAX,
    ensures
        r == div_trunc(later - earlier, DAY_SECS as int),
{
    let diff = later - earlier;
    if diff >= 0 {
        diff / DAY_SECS
    } else {
        let neg = (-(diff as i128)) as u64;
        let q = neg / (DAY_SECS as u64);
        assert(q <= neg) by (nonlinear_arith)
            requires
                q == neg / 86400,
        ;
        assert(neg <= 0x8000_0000_0000_0000u64);
        -(q as i64)
    }
}

/// Checks every creation policy; first violation wins.
pub fn check_creation(settings: &GuildSettings, ctx: &CreationContext) -> (r: Result<
    (),
    PolicyViolation,
>)
    requires
        creation_ages_fit(*settings, *ctx),
    ensures
        r == check_creation_spec(*settings, *ctx),
{
    if ctx.has_creator_role == Some(false) {
        return Err(PolicyViolation::MissingCreatorRole);
    }
    if ctx.live_series_count >= settings.max_series_per_user {
        return Err(PolicyViolation::MaxSeries(settings.max_series_per_user));
    }
    if settings.min_account_age_days > 0 {
        let age_days = days_between(ctx.now_unix, ctx.account_created_unix);
        if age_days < settings.min_account_age_days {
            return Err(PolicyViolation::AccountTooNew(settings.min_account_age_days));
        }
    }
    if settings.min_membership_age_days > 0 {
        let joined = match ctx.joined_unix {
            Some(j) => j,
            None => ctx.now_unix,
        };
        if days_between(ctx.now_unix, joined) < settings.min_membership_age_days {
            return Err(PolicyViolation::MembershipTooNew(settings.min_membership_age_days));
        }
    }
    Ok(())
}

/// `channel_id` is one of the guild's watched channels.
pub open spec fn channel_allowed_spec(settings: GuildSettings, channel_id: Seq<char>) -> bool {
    exists|i: int|
        0 <= i < settings.watched_channels@.len() && #[trigger] settings.watched_channels@[i]@
            == channel_id
}

/// Whether any string in `v` has the text of `x`.
pub fn contains_str(v: &[String], x: &str) -> (r: bool)
    ensures
        r == exists|i: int| 0 <= i < v@.len() && #[trigger] v@[i]@ == x@,
{
    let mut i: usize = 0;
    while i < v.len()
        invariant
            0 <= i <= v.len(),
            forall|k: int| 0 <= k < i ==> #[trigger] v@[k]@ != x@,
        decreases v.len() - i,
    {
        if str_eq(v[i].as_str(), x) {
            return true;
        }
        i += 1;
    }
    false
}

/// True when `channel_id` is one the guild archives from.
pub fn channel_allowed(settings: &GuildSettings, channel_id: &str) -> (r: bool)
    ensures
        r == channel_allowed_spec(*settings, channel_id@),
{
    contains_str(settings.watched_channels.as_slice(), channel_id)
}

/// Who is asking to see a series.
#[derive(Debug, Clone, Copy)]
pub struct Viewer<'a> {
    /// Viewer's user snowflake.
    pub user_id: &'a str,
    /// Viewer's role snowflakes.
    pub role_ids: &'a [String],
    /// Holds Manage Guild.
    pub is_admin: bool,
}

/// Visibility rules: admins see everything; revoked is admin-only; sprouts
/// are visible only to their creator; otherwise privacy applies (public /
/// role-gated, where the creator or a holder of the role may look /
/// creator-only).
pub open spec fn can_view_spec(series: Series, viewer: Viewer<'_>) -> bool {
    let is_creator = series.creator_id@ == viewer.user_id@;
    if viewer.is_admin {
        true
    } else {
        match series.state {
            SeriesState::Revoked => false,
            SeriesState::Sprout => is_creator,
            SeriesState::Active => match series.privacy {
                Privacy::Public => true,
                Privacy::CreatorOnly => is_creator,
                Privacy::RoleGated => is_creator || match series.privacy_role_id {
                    Some(r) => exists|i: int|
                        0 <= i < viewer.role_ids@.len() && #[trigger] viewer.role_ids@[i]@ == r@,
                    None => false,
                },
            },
        }
    }
}

/// Visibility rules: admins and creators always see their own; revoked is
/// admin-only; sprouts are hidden from everyone else; otherwise privacy
/// applies (public / role-gated / creator-only).
pub fn can_view(series: &Series, viewer: &Viewer<'_>) -> (r: bool)
    ensures
        r == can_view_spec(*series, *viewer),
{
    if viewer.is_admin {
        return true;
    }
    let is_creator = str_eq(series.creator_id.as_str(), viewer.user_id);
    match series.state {
        SeriesState::Revoked => false,
        SeriesState::Sprout => is_creator,
        SeriesState::Active => match series.privacy {
            Privacy::Public => true,
            Privacy::CreatorOnly => is_creator,
            Privacy::RoleGated => {
                if is_creator {
                    true
                } else {
                    match &series.privacy_role_id {
                        Some(r) => contains_str(viewer.role_ids, r.as_str()),
                        None => false,
                    }
                }
            },
        },
    }
}

/// Visibility laws: an admin sees every series; nobody but an admin sees a
/// revoked one; the creator sees every non-revoked series of their own.
pub proof fn lemma_visibility(series: Series, viewer: Viewer<'_>)
    ensures
        viewer.is_admin ==> can_view_spec(series, viewer),
        series.state == SeriesState::Revoked && !viewer.is_admin ==> !can_view_spec(
            series,
            viewer,
        ),
        series.state != SeriesState::Revoked && series.creator_id@ == viewer.user_id@
            ==> can_view_spec(series, viewer),
{
}

impl PolicyViolation {
    /// The user-facing message.
    pub open spec fn message_spec(self) -> Seq<char> {
        match self {
            PolicyViolation::MaxSeries(n) => "you already have "@ + int_dec(n as int)
                + " series here — the limit is "@ + int_dec(n as int)
                + ". Edit or remove one first"@,
            PolicyViolation::AccountTooNew(n) => "your Discord account must be at least "@
                + int_dec(n as int) + " days old to start a series here"@,
            PolicyViolation::MembershipTooNew(n) => "you need to have been a member here for at least "@
                + int_dec(n as int) + " days to start a series"@,
            PolicyViolation::MissingCreatorRole => "starting a series here requires the creator role"@,
            PolicyViolation::ChannelNotWatched => "that channel isn't one this server archives from — an admin can add it with /setup"@,
        }
    }

    /// The user-facing message (its `Display` text).
    pub fn message(&self) -> (r: String)
        ensures
            r@ == self.message_spec(),
    {
        match self {
            PolicyViolation::MaxSeries(n) => {
                let mut s = "you already have ".to_owned();
                push_i64_dec(&mut s, *n);
                push_str(&mut s, " series here — the limit is ");
                push_i64_dec(&mut s, *n);
                push_str(&mut s, ". Edit or remove one first");
                s
            },
            PolicyViolation::AccountTooNew(n) => {
                let mut s = "your Discord account must be at least ".to_owned();
                push_i64_dec(&mut s, *n);
                push_str(&mut s, " days old to start a series here");
                s
            },
            PolicyViolation::MembershipTooNew(n) => {
                let mut s = "you need to have been a member here for at least ".to_owned();
                push_i64_dec(&mut s, *n);
                push_str(&mut s, " days to start a series");
                s
            },
            PolicyViolation::MissingCreatorRole => "starting a series here requires the creator role".to_owned(),
            PolicyViolation::ChannelNotWatched => "that channel isn't one this server archives from — an admin can add it with /setup".to_owned(),
        }
    }
}


proof fn lemma_whole_days_below(d: int, m: int)
    requires
        m >= 1,
    ensures
        div_trunc(d, 86400) < m <==> d < m * 86400,
{
    if d >= 0 {
        let q = d / 86400;
        let r = d % 86400;
        assert(d == 86400 * q + r && 0 <= r < 86400) by (nonlinear_arith)
            requires
                d >= 0,
                q == d / 86400,
                r == d % 86400,
        ;
        assert(q < m <==> d < m * 86400) by (nonlinear_arith)
            requires
                d == 86400 * q + r,
                0 <= r < 86400,
        ;
    } else {
        let q = (-d) / 86400;
        assert(q >= 0) by (nonlinear_arith)
            requires
                -d > 0,
                q == (-d) / 86400,
        ;
        assert(m * 86400 > 0) by (nonlinear_arith)
            requires
                m >= 1,
        ;
    }
}

/// Account and membership age, in whole days: once the role and series
/// limit pass, an account is refused as too new exactly when fewer than
/// `min_account_age_days` × 86 400 seconds have passed since it was
/// created, and (account age passing) membership exactly when fewer than
/// `min_membership_age_days` × 86 400 seconds have passed since joining
/// (an unknown join time counting as now).
pub proof fn lemma_creation_ages(settings: GuildSettings, ctx: CreationContext)
    requires
        ctx.has_creator_role != Some(false),
        ctx.live_series_count < settings.max_series_per_user,
    ensures
        settings.min_account_age_days > 0 ==> (check_creation_spec(settings, ctx) == Err::<
            (),
            PolicyViolation,
        >(PolicyViolation::AccountTooNew(settings.min_account_age_days)) <==> ctx.now_unix
            - ctx.account_created_unix < settings.min_account_age_days * 86400),
        (settings.min_account_age_days <= 0 || ctx.now_unix - ctx.account_created_unix
            >= settings.min_account_age_days * 86400) ==> {
            let joined = match ctx.joined_unix {
                Some(j) => j,
                None => ctx.now_unix,
            };
            &&& settings.min_membership_age_days > 0 ==> (check_creation_spec(settings, ctx)
                == Err::<(), PolicyViolation>(
                PolicyViolation::MembershipTooNew(settings.min_membership_age_days),
            ) <==> ctx.now_unix - joined < settings.min_membership_age_days * 86400)
            &&& (settings.min_membership_age_days <= 0 || ctx.now_unix - joined
                >= settings.min_membership_age_days * 86400) ==> check_creation_spec(settings, ctx)
                is Ok
        },
{
    if settings.min_account_age_days > 0 {
        lemma_whole_days_below(ctx.now_unix - ctx.account_created_unix, settings.min_account_age_days as int);
    }
    if settings.min_membership_age_days > 0 {
        lemma_whole_days_below(ctx.now_unix - joined_or_now(ctx), settings.min_membership_age_days as int);
    }
}

} // verus!
