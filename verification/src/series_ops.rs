//! Shared series lifecycle operations: validate-and-create,
//! validate-and-edit, and ownership checks. The bot's commands and the
//! gallery's creator API both go through these, so the rules cannot drift
//! between surfaces. Everything here is free of database access; the
//! caller performs the single write.

use vstd::prelude::*;

use crate::clock::{hh_mm_seconds, now_unix, tz_is_known, parse_hh_mm, tz_known};
use crate::domain::{Cadence, DetectionMode, GuildSettings, NewSeries, Privacy, Series, SeriesState, clone_opt, opt_view, strs_view};
use crate::policy::{CreationContext, PolicyViolation, channel_allowed, channel_allowed_spec, check_creation, check_creation_spec, contains_str, creation_ages_fit};
use crate::store::DbError;
use crate::text::{chars_of, parse_u64, parse_u64_spec, push_str, str_eq, string_of, trim, trim_str};

verus! {

/// Discord's epoch (2015-01-01) in milliseconds, for snowflake → time.
pub const DISCORD_EPOCH_MS: i64 = 1_420_070_400_000;

/// Shortest series name, in characters.
pub const NAME_MIN: usize = 2;

/// Longest series name, in characters.
pub const NAME_MAX: usize = 40;

/// Longest description, in characters.
pub const DESCRIPTION_MAX: usize = 200;

/// Longest reaction emoji, in characters.
pub const EMOJI_MAX: usize = 8;

/// A field-level validation failure. [`ValidationError::message`] is the
/// user-facing text.
#[derive(Debug, Clone, PartialEq, Eq)]
pub enum ValidationError {
    /// Name outside the 2–40 character range.
    NameLength,
    /// Description longer than 200 characters.
    DescriptionTooLong,
    /// Emoji longer than 8 characters.
    EmojiTooLong,
    /// Start day below 1.
    StartDayTooLow,
    /// Role-gated privacy without a role.
    MissingPrivacyRole,
    /// Reminder time not in 24h `HH:MM` form.
    InvalidReminderTime(String),
    /// Reminder timezone not a known IANA name.
    InvalidTimezone(String),
    /// Enabling reminders without a time to fire at.
    ReminderTimeRequired,
    /// Reminders on a series with no schedule.
    ReminderOnFreeform,
}

/// Why a series could not be created.
#[derive(Debug, Clone, PartialEq, Eq)]
pub enum CreateError {
    /// A creation-policy rule blocked it (role, limit, age, channel).
    Policy(PolicyViolation),
    /// A field failed validation.
    Validation(ValidationError),
    /// The name already exists in this guild.
    NameTaken,
    /// The store failed.
    Db(DbError),
}

/// The caller is not the series creator.
#[derive(Debug, Clone, Copy, PartialEq, Eq, Structural)]
pub struct Forbidden;

/// Why a series could not be updated.
#[derive(Debug, Clone, PartialEq, Eq)]
pub enum UpdateError {
    /// The caller does not own the series.
    Forbidden(Forbidden),
    /// The target channel is not one the guild archives from.
    Policy(PolicyViolation),
    /// A field failed validation.
    Validation(ValidationError),
    /// The series is revoked and cannot be edited (admins restore it).
    Revoked,
    /// The name already exists in this guild.
    NameTaken,
    /// The store failed.
    Db(DbError),
}

/// Fields needed to create a series.
#[derive(Debug, Clone)]
pub struct CreateSeriesInput {
    /// Display name (validated 2–40 chars after trimming, unique per guild).
    pub name: String,
    /// Free-text description (validated ≤ 200 chars).
    pub description: String,
    /// The single watched channel to post in.
    pub channel_id: String,
    /// Posting cadence.
    pub cadence: Cadence,
    /// Visibility.
    pub privacy: Privacy,
    /// Role for [`Privacy::RoleGated`]; required when role-gated.
    pub privacy_role_id: Option<String>,
    /// First day number (validated ≥ 1).
    pub start_day: i64,
}

/// Partial update; every field is optional and omitted ones are unchanged.
#[derive(Debug, Clone, Default)]
pub struct UpdateSeriesInput {
    /// New description (≤ 200 chars).
    pub description: Option<String>,
    /// New reaction emoji (≤ 8 chars).
    pub emoji: Option<String>,
    /// New cadence.
    pub cadence: Option<Cadence>,
    /// New visibility.
    pub privacy: Option<Privacy>,
    /// New role for role-gated privacy.
    pub privacy_role_id: Option<String>,
    /// Move to a different watched channel.
    pub channel_id: Option<String>,
    /// Capture mode (context menu vs passive).
    pub detection_mode: Option<DetectionMode>,
    /// Enable or disable reminders.
    pub reminder_enabled: Option<bool>,
    /// Reminder time of day, `HH:MM`.
    pub reminder_time: Option<String>,
    /// IANA timezone override for reminders.
    pub reminder_timezone: Option<String>,
    /// Remind by DM (true) or channel ping (false).
    pub reminder_dm: Option<bool>,
}

// --- creation context ------------------------------------------------------

/// Whether any of `roles` has the text `role`.
pub open spec fn holds_role(roles: Seq<String>, role: Seq<char>) -> bool {
    exists|i: int| 0 <= i < roles.len() && #[trigger] roles[i]@ == role
}

/// Builds the policy [`CreationContext`] from raw, Discord-free facts: the
/// creator-role answer is `None` when the guild has no role requirement,
/// else whether `role_ids` holds the required role.
pub fn build_creation_context(
    now_unix: i64,
    account_created_unix: i64,
    joined_unix: Option<i64>,
    live_series_count: i64,
    role_ids: &[String],
    settings: &GuildSettings,
) -> (r: CreationContext)
    ensures
        r.now_unix == now_unix,
        r.account_created_unix == account_created_unix,
        r.joined_unix == joined_unix,
        r.live_series_count == live_series_count,
        r.has_creator_role == (match settings.creator_role_id {
            Some(role) => Some(holds_role(role_ids@, role@)),
            None => None::<bool>,
        }),
{
    let has_creator_role = match &settings.creator_role_id {
        Some(role) => Some(contains_str(role_ids, role.as_str())),
        None => None,
    };
    CreationContext {
        now_unix,
        account_created_unix,
        joined_unix,
        live_series_count,
        has_creator_role,
    }
}

/// Account creation time encoded in a snowflake: the top 42 bits are
/// milliseconds since the Discord epoch; `0` when the id does not parse.
pub open spec fn account_created_spec(user_id: Seq<char>) -> i64 {
    match parse_u64_spec(user_id) {
        Some(s) => ((s as int / 0x40_0000 + DISCORD_EPOCH_MS) / 1000) as i64,
        None => 0,
    }
}

/// Account creation time (unix seconds) derived from a Discord snowflake.
/// Returns `0` for an unparseable id (treated as a very old account).
pub fn account_created_unix(user_id: &str) -> (r: i64)
    ensures
        r == account_created_spec(user_id@),
{
    match parse_u64(user_id) {
        Some(snowflake) => {
            let ms = (snowflake / 0x40_0000) as i64 + DISCORD_EPOCH_MS;
            ms / 1000
        },
        None => 0,
    }
}

/// Validates ownership for a mutating operation: `Forbidden` unless
/// `user_id` is the series creator.
pub fn assert_owner(series: &Series, user_id: &str) -> (r: Result<(), Forbidden>)
    ensures
        r is Ok <==> series.creator_id@ == user_id@,
{
    if str_eq(series.creator_id.as_str(), user_id) {
        Ok(())
    } else {
        Err(Forbidden)
    }
}

// --- create ------------------------------------------------------------------

/// The outcome of validating a create request, first failure wins: name
/// length (2–40 characters after trimming), description length (≤ 200),
/// start day (≥ 1), role for role-gated privacy, watched channel, then the
/// creation policy.
pub open spec fn create_verdict(
    settings: GuildSettings,
    ctx: CreationContext,
    input: CreateSeriesInput,
) -> Result<(), CreateError> {
    let n = trim(input.name@).len();
    if n < NAME_MIN || n > NAME_MAX {
        Err(CreateError::Validation(ValidationError::NameLength))
    } else if input.description@.len() > DESCRIPTION_MAX {
        Err(CreateError::Validation(ValidationError::DescriptionTooLong))
    } else if input.start_day < 1 {
        Err(CreateError::Validation(ValidationError::StartDayTooLow))
    } else if input.privacy == Privacy::RoleGated && input.privacy_role_id is None {
        Err(CreateError::Validation(ValidationError::MissingPrivacyRole))
    } else if !channel_allowed_spec(settings, input.channel_id@) {
        Err(CreateError::Policy(PolicyViolation::ChannelNotWatched))
    } else {
        match check_creation_spec(settings, ctx) {
            Ok(()) => Ok(()),
            Err(v) => Err(CreateError::Policy(v)),
        }
    }
}

/// The series a valid create request produces (creator filled separately).
pub open spec fn new_series_from(
    n: NewSeries,
    settings: GuildSettings,
    input: CreateSeriesInput,
    creator_id: Seq<char>,
) -> bool {
    &&& n.guild_id@ == settings.guild_id@
    &&& n.creator_id@ == creator_id
    &&& n.name@ == trim(input.name@)
    &&& n.description@ == input.description@
    &&& strs_view(n.channels@) == seq![input.channel_id@]
    &&& n.cadence == input.cadence
    &&& n.detection_mode == DetectionMode::ContextMenu
    &&& n.privacy == input.privacy
    &&& opt_view(n.privacy_role_id) == opt_view(input.privacy_role_id)
    &&& n.start_day == input.start_day
    &&& n.state == (if settings.sprout_enabled {
        SeriesState::Sprout
    } else {
        SeriesState::Active
    })
}

/// Validates a create request against policy and field rules, producing the
/// [`NewSeries`] to insert (with an empty creator id).
pub fn validate_create(
    settings: &GuildSettings,
    ctx: &CreationContext,
    input: &CreateSeriesInput,
) -> (r: Result<NewSeries, CreateError>)
    requires
        creation_ages_fit(*settings, *ctx),
    ensures
        r is Ok <==> create_verdict(*settings, *ctx, *input) is Ok,
        r matches Err(e) ==> create_verdict(*settings, *ctx, *input) == Err::<(), CreateError>(e),
        r matches Ok(n) ==> new_series_from(n, *settings, *input, Seq::empty()),
{
    let name = trim_str(input.name.as_str());
    if name.len() < NAME_MIN || name.len() > NAME_MAX {
        return Err(CreateError::Validation(ValidationError::NameLength));
    }
    let description = chars_of(input.description.as_str());
    if description.len() > DESCRIPTION_MAX {
        return Err(CreateError::Validation(ValidationError::DescriptionTooLong));
    }
    if input.start_day < 1 {
        return Err(CreateError::Validation(ValidationError::StartDayTooLow));
    }
    if input.privacy == Privacy::RoleGated && input.privacy_role_id.is_none() {
        return Err(CreateError::Validation(ValidationError::MissingPrivacyRole));
    }
    if !channel_allowed(settings, input.channel_id.as_str()) {
        return Err(CreateError::Policy(PolicyViolation::ChannelNotWatched));
    }
    match check_creation(settings, ctx) {
        Ok(()) => {},
        Err(v) => {
            return Err(CreateError::Policy(v));
        },
    }
    let state = if settings.sprout_enabled {
        SeriesState::Sprout
    } else {
        SeriesState::Active
    };
    let mut channels: Vec<String> = Vec::new();
    channels.push(input.channel_id.clone());
    assert(strs_view(channels@) =~= seq![input.channel_id@]);
    Ok(NewSeries {
        guild_id: settings.guild_id.clone(),
        creator_id: String::new(),
        name: string_of(&name),
        description: input.description.clone(),
        channels,
        cadence: input.cadence,
        detection_mode: DetectionMode::ContextMenu,
        privacy: input.privacy,
        privacy_role_id: clone_opt(&input.privacy_role_id),
        start_day: input.start_day,
        state,
    })
}

/// Validates a create request and fills in the creator, producing the row
/// to insert (the caller performs the insert and maps a taken name to
/// [`CreateError::NameTaken`]).
pub fn prepare_create(
    settings: &GuildSettings,
    ctx: &CreationContext,
    creator_id: &str,
    input: &CreateSeriesInput,
) -> (r: Result<NewSeries, CreateError>)
    requires
        creation_ages_fit(*settings, *ctx),
    ensures
        r is Ok <==> create_verdict(*settings, *ctx, *input) is Ok,
        r matches Err(e) ==> create_verdict(*settings, *ctx, *input) == Err::<(), CreateError>(e),
        r matches Ok(n) ==> new_series_from(n, *settings, *input, creator_id@),
{
    let mut new = validate_create(settings, ctx, input)?;
    new.creator_id = creator_id.to_owned();
    Ok(new)
}

/// The outcome of a create once the insert has run: the inserted series,
/// a taken name, or the store's failure.
pub fn finish_create(inserted: Result<Series, DbError>) -> (r: Result<Series, CreateError>)
    ensures
        match inserted {
            Ok(s) => r == Ok::<Series, CreateError>(s),
            Err(DbError::SeriesNameTaken) => r == Err::<Series, CreateError>(CreateError::NameTaken),
            Err(e) => r == Err::<Series, CreateError>(CreateError::Db(e)),
        },
{
    match inserted {
        Ok(s) => Ok(s),
        Err(DbError::SeriesNameTaken) => Err(CreateError::NameTaken),
        Err(e) => Err(CreateError::Db(e)),
    }
}

// --- update ------------------------------------------------------------------

/// The description change is acceptable.
pub open spec fn desc_ok(input: UpdateSeriesInput) -> bool {
    input.description matches Some(d) ==> d@.len() <= DESCRIPTION_MAX
}

/// The emoji change is acceptable.
pub open spec fn emoji_ok(input: UpdateSeriesInput) -> bool {
    input.emoji matches Some(e) ==> e@.len() <= EMOJI_MAX
}

/// The privacy in effect after the update.
pub open spec fn privacy_after(s: Series, input: UpdateSeriesInput) -> Privacy {
    match input.privacy {
        Some(p) => p,
        None => s.privacy,
    }
}

/// The cadence in effect after the update.
pub open spec fn cadence_after(s: Series, input: UpdateSeriesInput) -> Cadence {
    match input.cadence {
        Some(c) => c,
        None => s.cadence,
    }
}

/// The gating role in effect after the update.
pub open spec fn role_after(s: Series, input: UpdateSeriesInput) -> Option<String> {
    match input.privacy_role_id {
        Some(r) => Some(r),
        None => s.privacy_role_id,
    }
}

/// Role-gated privacy has a role after the update.
pub open spec fn role_ok(s: Series, input: UpdateSeriesInput) -> bool {
    !(privacy_after(s, input) == Privacy::RoleGated && role_after(s, input) is None)
}

/// The channel move, if any, targets a watched channel.
pub open spec fn channel_ok(settings: GuildSettings, input: UpdateSeriesInput) -> bool {
    input.channel_id matches Some(c) ==> channel_allowed_spec(settings, c@)
}

/// The reminder time, if given, is a valid 24h `HH:MM`.
pub open spec fn time_ok(input: UpdateSeriesInput) -> bool {
    input.reminder_time matches Some(t) ==> hh_mm_seconds(t@) is Some
}

/// The reminder timezone, if given, is a known IANA name.
pub open spec fn tz_ok(input: UpdateSeriesInput) -> bool {
    input.reminder_timezone matches Some(z) ==> tz_is_known(z@)
}

/// The reminder time in effect after the update.
pub open spec fn time_after(s: Series, input: UpdateSeriesInput) -> Option<String> {
    match input.reminder_time {
        Some(t) => Some(t),
        None => s.reminder_time,
    }
}

/// The outcome of a partial update, first failure wins: description,
/// emoji, role for role-gated privacy, channel, reminder time, reminder
/// timezone, then enabling reminders (needs a cadence, then a time).
pub open spec fn update_verdict(
    settings: GuildSettings,
    s: Series,
    input: UpdateSeriesInput,
) -> Result<(), UpdateError> {
    if !desc_ok(input) {
        Err(UpdateError::Validation(ValidationError::DescriptionTooLong))
    } else if !emoji_ok(input) {
        Err(UpdateError::Validation(ValidationError::EmojiTooLong))
    } else if !role_ok(s, input) {
        Err(UpdateError::Validation(ValidationError::MissingPrivacyRole))
    } else if !channel_ok(settings, input) {
        Err(UpdateError::Policy(PolicyViolation::ChannelNotWatched))
    } else if !time_ok(input) {
        Err(UpdateError::Validation(ValidationError::InvalidReminderTime(input.reminder_time->0)))
    } else if !tz_ok(input) {
        Err(UpdateError::Validation(ValidationError::InvalidTimezone(input.reminder_timezone->0)))
    } else if input.reminder_enabled == Some(true) && cadence_after(s, input) == Cadence::Freeform {
        Err(UpdateError::Validation(ValidationError::ReminderOnFreeform))
    } else if input.reminder_enabled == Some(true) && time_after(s, input) is None {
        Err(UpdateError::Validation(ValidationError::ReminderTimeRequired))
    } else {
        Ok(())
    }
}

/// The series with every field of an accepted update applied: each given
/// field takes its new value, and the identity, name, start day, template,
/// state and creation time never change.
pub open spec fn updated_fields(old: Series, new: Series, input: UpdateSeriesInput) -> bool {
    &&& same_identity(old, new)
    &&& new.description == (if input.description is Some {
        input.description->0
    } else {
        old.description
    })
    &&& new.emoji == (if input.emoji is Some {
        input.emoji->0
    } else {
        old.emoji
    })
    &&& new.cadence == cadence_after(old, input)
    &&& new.privacy == privacy_after(old, input)
    &&& new.privacy_role_id == role_after(old, input)
    &&& (if input.channel_id is Some {
        strs_view(new.channels@) == seq![input.channel_id->0@]
    } else {
        new.channels == old.channels
    })
    &&& new.detection_mode == (if input.detection_mode is Some {
        input.detection_mode->0
    } else {
        old.detection_mode
    })
    &&& new.reminder_time == time_after(old, input)
    &&& new.reminder_timezone == (if input.reminder_timezone is Some {
        input.reminder_timezone
    } else {
        old.reminder_timezone
    })
    &&& new.reminder_dm == (if input.reminder_dm is Some {
        input.reminder_dm->0
    } else {
        old.reminder_dm
    })
    &&& new.reminder_enabled == (if input.reminder_enabled is Some {
        input.reminder_enabled->0
    } else {
        old.reminder_enabled
    })
}

/// What the series looks like after `apply_update`: an accepted update has
/// all its fields applied; a refused one leaves the series as it was.
pub open spec fn update_applied(
    settings: GuildSettings,
    old: Series,
    new: Series,
    input: UpdateSeriesInput,
) -> bool {
    if update_verdict(settings, old, input) is Ok {
        updated_fields(old, new, input)
    } else {
        new == old
    }
}

/// True when `s` is a 24-hour `HH:MM` time.
pub fn valid_hh_mm(s: &str) -> (r: bool)
    ensures
        r == (hh_mm_seconds(s@) is Some),
{
    parse_hh_mm(s).is_some()
}

/// Fields that only the reminder stage changes stay put.
pub open spec fn same_reminder_fields(a: Series, b: Series) -> bool {
    &&& a.reminder_time == b.reminder_time
    &&& a.reminder_timezone == b.reminder_timezone
    &&& a.reminder_dm == b.reminder_dm
    &&& a.reminder_enabled == b.reminder_enabled
}

/// Fields no update ever changes stay put.
pub open spec fn same_identity(a: Series, b: Series) -> bool {
    &&& a.id == b.id
    &&& a.guild_id == b.guild_id
    &&& a.creator_id == b.creator_id
    &&& a.name == b.name
    &&& a.start_day == b.start_day
    &&& a.milestone_template == b.milestone_template
    &&& a.state == b.state
    &&& a.created_at == b.created_at
}

/// Description, emoji, cadence, privacy and role: the first stage.
fn apply_presentation(series: &mut Series, input: &UpdateSeriesInput) -> (r: Result<
    (),
    UpdateError,
>)
    ensures
        r == (if !desc_ok(*input) {
            Err(UpdateError::Validation(ValidationError::DescriptionTooLong))
        } else if !emoji_ok(*input) {
            Err(UpdateError::Validation(ValidationError::EmojiTooLong))
        } else if !role_ok(*old(series), *input) {
            Err(UpdateError::Validation(ValidationError::MissingPrivacyRole))
        } else {
            Ok(())
        }),
        same_identity(*old(series), *final(series)),
        same_reminder_fields(*old(series), *final(series)),
        final(series).channels == old(series).channels,
        final(series).detection_mode == old(series).detection_mode,
        final(series).description == (if desc_ok(*input) && input.description is Some {
            input.description->0
        } else {
            old(series).description
        }),
        final(series).emoji == (if desc_ok(*input) && emoji_ok(*input) && input.emoji is Some {
            input.emoji->0
        } else {
            old(series).emoji
        }),
        final(series).cadence == (if desc_ok(*input) && emoji_ok(*input) {
            cadence_after(*old(series), *input)
        } else {
            old(series).cadence
        }),
        final(series).privacy == (if desc_ok(*input) && emoji_ok(*input) {
            privacy_after(*old(series), *input)
        } else {
            old(series).privacy
        }),
        final(series).privacy_role_id == (if desc_ok(*input) && emoji_ok(*input) {
            role_after(*old(series), *input)
        } else {
            old(series).privacy_role_id
        }),
{
    if let Some(description) = &input.description {
        if chars_of(description.as_str()).len() > DESCRIPTION_MAX {
            return Err(UpdateError::Validation(ValidationError::DescriptionTooLong));
        }
        series.description = description.clone();
    }
    if let Some(emoji) = &input.emoji {
        if chars_of(emoji.as_str()).len() > EMOJI_MAX {
            return Err(UpdateError::Validation(ValidationError::EmojiTooLong));
        }
        series.emoji = emoji.clone();
    }
    if let Some(cadence) = input.cadence {
        series.cadence = cadence;
    }
    if let Some(privacy) = input.privacy {
        series.privacy = privacy;
    }
    if let Some(role) = &input.privacy_role_id {
        series.privacy_role_id = Some(role.clone());
    }
    if series.privacy == Privacy::RoleGated && series.privacy_role_id.is_none() {
        return Err(UpdateError::Validation(ValidationError::MissingPrivacyRole));
    }
    Ok(())
}

/// Channel move and capture mode: the second stage.
fn apply_channel(settings: &GuildSettings, series: &mut Series, input: &UpdateSeriesInput) -> (r:
    Result<(), UpdateError>)
    ensures
        r == (if !channel_ok(*settings, *input) {
            Err(UpdateError::Policy(PolicyViolation::ChannelNotWatched))
        } else {
            Ok(())
        }),
        same_identity(*old(series), *final(series)),
        same_reminder_fields(*old(series), *final(series)),
        final(series).description == old(series).description,
        final(series).emoji == old(series).emoji,
        final(series).cadence == old(series).cadence,
        final(series).privacy == old(series).privacy,
        final(series).privacy_role_id == old(series).privacy_role_id,
        (if channel_ok(*settings, *input) && input.channel_id is Some {
            strs_view(final(series).channels@) == seq![input.channel_id->0@]
        } else {
            final(series).channels == old(series).channels
        }),
        final(series).detection_mode == (if channel_ok(*settings, *input)
            && input.detection_mode is Some {
            input.detection_mode->0
        } else {
            old(series).detection_mode
        }),
{
    if let Some(channel_id) = &input.channel_id {
        if !channel_allowed(settings, channel_id.as_str()) {
            return Err(UpdateError::Policy(PolicyViolation::ChannelNotWatched));
        }
        let mut channels: Vec<String> = Vec::new();
        channels.push(channel_id.clone());
        assert(strs_view(channels@) =~= seq![channel_id@]);
        series.channels = channels;
    }
    if let Some(mode) = input.detection_mode {
        series.detection_mode = mode;
    }
    Ok(())
}

/// Reminder time, timezone, delivery and switch: the last stage.
fn apply_reminder_update(series: &mut Series, input: &UpdateSeriesInput) -> (r: Result<
    (),
    ValidationError,
>)
    ensures
        r == (if !time_ok(*input) {
            Err(ValidationError::InvalidReminderTime(input.reminder_time->0))
        } else if !tz_ok(*input) {
            Err(ValidationError::InvalidTimezone(input.reminder_timezone->0))
        } else if input.reminder_enabled == Some(true) && old(series).cadence == Cadence::Freeform {
            Err(ValidationError::ReminderOnFreeform)
        } else if input.reminder_enabled == Some(true) && time_after(*old(series), *input) is None {
            Err(ValidationError::ReminderTimeRequired)
        } else {
            Ok(())
        }),
        same_identity(*old(series), *final(series)),
        final(series).description == old(series).description,
        final(series).emoji == old(series).emoji,
        final(series).cadence == old(series).cadence,
        final(series).privacy == old(series).privacy,
        final(series).privacy_role_id == old(series).privacy_role_id,
        final(series).channels == old(series).channels,
        final(series).detection_mode == old(series).detection_mode,
        final(series).reminder_time == (if time_ok(*input) && input.reminder_time is Some {
            input.reminder_time
        } else {
            old(series).reminder_time
        }),
        final(series).reminder_timezone == (if time_ok(*input) && tz_ok(*input)
            && input.reminder_timezone is Some {
            input.reminder_timezone
        } else {
            old(series).reminder_timezone
        }),
        final(series).reminder_dm == (if time_ok(*input) && tz_ok(*input)
            && input.reminder_dm is Some {
            input.reminder_dm->0
        } else {
            old(series).reminder_dm
        }),
        final(series).reminder_enabled == (if time_ok(*input) && tz_ok(*input) && (
        input.reminder_enabled == Some(true) ==> old(series).cadence != Cadence::Freeform
            && time_after(*old(series), *input) is Some) && input.reminder_enabled is Some {
            input.reminder_enabled->0
        } else {
            old(series).reminder_enabled
        }),
{
    if let Some(time) = &input.reminder_time {
        if !valid_hh_mm(time.as_str()) {
            return Err(ValidationError::InvalidReminderTime(time.clone()));
        }
        series.reminder_time = Some(time.clone());
    }
    if let Some(tz) = &input.reminder_timezone {
        if !tz_known(tz.as_str()) {
            return Err(ValidationError::InvalidTimezone(tz.clone()));
        }
        series.reminder_timezone = Some(tz.clone());
    }
    if let Some(dm) = input.reminder_dm {
        series.reminder_dm = dm;
    }
    if let Some(enabled) = input.reminder_enabled {
        if enabled {
            if series.cadence == Cadence::Freeform {
                return Err(ValidationError::ReminderOnFreeform);
            }
            if series.reminder_time.is_none() {
                return Err(ValidationError::ReminderTimeRequired);
            }
        }
        series.reminder_enabled = enabled;
    }
    Ok(())
}

/// Applies a partial update to `series` in place after validating it. The
/// series must already be owner-checked and non-revoked.
pub fn apply_update(
    settings: &GuildSettings,
    series: &mut Series,
    input: &UpdateSeriesInput,
) -> (r: Result<(), UpdateError>)
    ensures
        r == update_verdict(*settings, *old(series), *input),
        update_applied(*settings, *old(series), *final(series), *input),
        r is Err ==> *final(series) == *old(series),
{
    check_update(settings, series, input)?;
    let ghost s0 = *series;
    apply_presentation(series, input)?;
    apply_channel(settings, series, input)?;
    let ghost s2 = *series;
    assert(time_after(s2, *input) == time_after(s0, *input));
    match apply_reminder_update(series, input) {
        Ok(()) => Ok(()),
        Err(e) => Err(UpdateError::Validation(e)),
    }
}

/// Checks a partial update against `series` without changing anything:
/// the first failing check, in the order `update_verdict` lists them.
fn check_update(settings: &GuildSettings, series: &Series, input: &UpdateSeriesInput) -> (r: Result<
    (),
    UpdateError,
>)
    ensures
        r == update_verdict(*settings, *series, *input),
{
    if let Some(description) = &input.description {
        if chars_of(description.as_str()).len() > DESCRIPTION_MAX {
            return Err(UpdateError::Validation(ValidationError::DescriptionTooLong));
        }
    }
    if let Some(emoji) = &input.emoji {
        if chars_of(emoji.as_str()).len() > EMOJI_MAX {
            return Err(UpdateError::Validation(ValidationError::EmojiTooLong));
        }
    }
    let privacy = match input.privacy {
        Some(p) => p,
        None => series.privacy,
    };
    if privacy == Privacy::RoleGated && input.privacy_role_id.is_none()
        && series.privacy_role_id.is_none() {
        return Err(UpdateError::Validation(ValidationError::MissingPrivacyRole));
    }
    if let Some(channel_id) = &input.channel_id {
        if !channel_allowed(settings, channel_id.as_str()) {
            return Err(UpdateError::Policy(PolicyViolation::ChannelNotWatched));
        }
    }
    if let Some(time) = &input.reminder_time {
        if !valid_hh_mm(time.as_str()) {
            return Err(UpdateError::Validation(ValidationError::InvalidReminderTime(time.clone())));
        }
    }
    if let Some(tz) = &input.reminder_timezone {
        if !tz_known(tz.as_str()) {
            return Err(UpdateError::Validation(ValidationError::InvalidTimezone(tz.clone())));
        }
    }
    if input.reminder_enabled == Some(true) {
        let cadence = match input.cadence {
            Some(c) => c,
            None => series.cadence,
        };
        if cadence == Cadence::Freeform {
            return Err(UpdateError::Validation(ValidationError::ReminderOnFreeform));
        }
        if input.reminder_time.is_none() && series.reminder_time.is_none() {
            return Err(UpdateError::Validation(ValidationError::ReminderTimeRequired));
        }
    }
    Ok(())
}

/// Validates ownership, the revoked state and a partial update, returning
/// the series to persist (the caller performs the write and maps a taken
/// name to [`UpdateError::NameTaken`]).
pub fn prepare_update(
    settings: &GuildSettings,
    series: Series,
    user_id: &str,
    input: &UpdateSeriesInput,
) -> (r: Result<Series, UpdateError>)
    ensures
        series.creator_id@ != user_id@ ==> r == Err::<Series, UpdateError>(
            UpdateError::Forbidden(Forbidden),
        ),
        series.creator_id@ == user_id@ && series.state == SeriesState::Revoked ==> r == Err::<
            Series,
            UpdateError,
        >(UpdateError::Revoked),
        series.creator_id@ == user_id@ && series.state != SeriesState::Revoked ==> {
            &&& (r is Ok <==> update_verdict(*settings, series, *input) is Ok)
            &&& (r matches Err(e) ==> update_verdict(*settings, series, *input) == Err::<
                (),
                UpdateError,
            >(e))
            &&& (r matches Ok(n) ==> update_applied(*settings, series, n, *input))
        },
{
    let mut series = series;
    match assert_owner(&series, user_id) {
        Ok(()) => {},
        Err(f) => {
            return Err(UpdateError::Forbidden(f));
        },
    }
    if series.state == SeriesState::Revoked {
        return Err(UpdateError::Revoked);
    }
    apply_update(settings, &mut series, input)?;
    Ok(series)
}

/// The outcome of an update once the write has run: the updated series, a
/// taken name, or the store's failure.
pub fn finish_update(series: Series, written: Result<(), DbError>) -> (r: Result<Series, UpdateError>)
    ensures
        match written {
            Ok(()) => r == Ok::<Series, UpdateError>(series),
            Err(DbError::SeriesNameTaken) => r == Err::<Series, UpdateError>(UpdateError::NameTaken),
            Err(e) => r == Err::<Series, UpdateError>(UpdateError::Db(e)),
        },
{
    match written {
        Ok(()) => Ok(series),
        Err(DbError::SeriesNameTaken) => Err(UpdateError::NameTaken),
        Err(e) => Err(UpdateError::Db(e)),
    }
}

impl ValidationError {
    /// The user-facing message.
    pub open spec fn message_spec(self) -> Seq<char> {
        match self {
            ValidationError::NameLength => "a series name must be between 2 and 40 characters"@,
            ValidationError::DescriptionTooLong => "a description can be at most 200 characters"@,
            ValidationError::EmojiTooLong => "a reaction emoji can be at most 8 characters"@,
            ValidationError::StartDayTooLow => "the start day must be 1 or greater"@,
            ValidationError::MissingPrivacyRole => "role-gated privacy needs a role to gate on"@,
            ValidationError::InvalidReminderTime(t) => "`"@ + t@
                + "` isn't a valid 24h time — use HH:MM, e.g. 17:30"@,
            ValidationError::InvalidTimezone(z) => "`"@ + z@
                + "` isn't a timezone I know — pick a valid IANA name"@,
            ValidationError::ReminderTimeRequired => "to enable reminders, set a time (24h HH:MM)"@,
            ValidationError::ReminderOnFreeform => "freeform series have no schedule to remind against — set a cadence first"@,
        }
    }

    /// The user-facing message.
    pub fn message(&self) -> (r: String)
        ensures
            r@ == self.message_spec(),
    {
        match self {
            ValidationError::NameLength => "a series name must be between 2 and 40 characters".to_owned(),
            ValidationError::DescriptionTooLong => "a description can be at most 200 characters".to_owned(),
            ValidationError::EmojiTooLong => "a reaction emoji can be at most 8 characters".to_owned(),
            ValidationError::StartDayTooLow => "the start day must be 1 or greater".to_owned(),
            ValidationError::MissingPrivacyRole => "role-gated privacy needs a role to gate on".to_owned(),
            ValidationError::InvalidReminderTime(t) => {
                let mut s = "`".to_owned();
                push_str(&mut s, t.as_str());
                push_str(&mut s, "` isn't a valid 24h time — use HH:MM, e.g. 17:30");
                s
            },
            ValidationError::InvalidTimezone(z) => {
                let mut s = "`".to_owned();
                push_str(&mut s, z.as_str());
                push_str(&mut s, "` isn't a timezone I know — pick a valid IANA name");
                s
            },
            ValidationError::ReminderTimeRequired => "to enable reminders, set a time (24h HH:MM)".to_owned(),
            ValidationError::ReminderOnFreeform => "freeform series have no schedule to remind against — set a cadence first".to_owned(),
        }
    }
}


/// A create is only accepted for a name of 2 to 40 characters once
/// trimmed, and any other name length is refused as `NameLength` before
/// anything else is looked at; an accepted series keeps the trimmed name.
pub proof fn lemma_create_name_length(
    settings: GuildSettings,
    ctx: CreationContext,
    input: CreateSeriesInput,
)
    ensures
        (trim(input.name@).len() < 2 || trim(input.name@).len() > 40) ==> create_verdict(
            settings,
            ctx,
            input,
        ) == Err::<(), CreateError>(CreateError::Validation(ValidationError::NameLength)),
        create_verdict(settings, ctx, input) is Ok ==> {
            &&& 2 <= trim(input.name@).len() <= 40
            &&& input.description@.len() <= 200
            &&& input.start_day >= 1
            &&& (input.privacy == Privacy::RoleGated ==> input.privacy_role_id is Some)
            &&& exists|i: int| 0 <= i < settings.watched_channels@.len()
                && #[trigger] settings.watched_channels@[i]@ == input.channel_id@
        },
{
}

} // verus!
