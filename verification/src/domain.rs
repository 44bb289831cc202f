//! Domain types shared across the bot, server, and migrator.
//!
//! String enum columns round-trip through `as_str` / `from_text`; the
//! textual forms are the canonical database representation.

use vstd::prelude::*;

use crate::text::{push_str, str_eq};

verus! {

/// A string column held a value outside an enum's domain.
#[derive(Debug, Clone, PartialEq, Eq)]
pub struct InvalidEnumValue {
    /// Which enum was being parsed.
    pub kind: &'static str,
    /// The offending value.
    pub value: String,
}

/// The text of an out-of-domain enum value error.
pub open spec fn invalid_enum_text(e: InvalidEnumValue) -> Seq<char> {
    "invalid "@ + e.kind@ + " value: "@ + e.value@
}

impl InvalidEnumValue {
    /// The error's message (its `Display` text).
    pub fn message(&self) -> (r: String)
        ensures
            r@ == invalid_enum_text(*self),
    {
        let mut s = String::new();
        push_str(&mut s, "invalid ");
        push_str(&mut s, self.kind);
        push_str(&mut s, " value: ");
        push_str(&mut s, self.value.as_str());
        s
    }
}

/// How often a series expects posts; drives reminders and "missed day"
/// stats. `Freeform` means no schedule (and therefore no reminders).
#[derive(Debug, Clone, Copy, PartialEq, Eq, Structural)]
pub enum Cadence {
    /// One post every calendar day.
    Daily,
    /// Monday through Friday.
    Weekdays,
    /// One post per calendar week.
    Weekly,
    /// No schedule.
    Freeform,
}

/// How posts enter the archive for a series.
#[derive(Debug, Clone, Copy, PartialEq, Eq, Structural)]
pub enum DetectionMode {
    /// Only via the right-click context menu (default).
    ContextMenu,
    /// Context menu plus the passive watcher with creator confirmation.
    Passive,
}

/// Who can see a series in the gallery and query commands.
#[derive(Debug, Clone, Copy, PartialEq, Eq, Structural)]
pub enum Privacy {
    /// Every guild member.
    Public,
    /// Members holding `privacy_role_id`.
    RoleGated,
    /// Only the creator (and admins).
    CreatorOnly,
}

/// Lifecycle state of a series.
#[derive(Debug, Clone, Copy, PartialEq, Eq, Structural)]
pub enum SeriesState {
    /// Probation: archiving works, gallery listing is hidden.
    Sprout,
    /// Normal operation.
    Active,
    /// Revoked by an admin; read-only, hidden.
    Revoked,
}

impl Cadence {
    /// The canonical text of each value.
    pub open spec fn text(self) -> Seq<char> {
        match self {
            Cadence::Daily => "daily"@,
            Cadence::Weekdays => "weekdays"@,
            Cadence::Weekly => "weekly"@,
            Cadence::Freeform => "freeform"@,
        }
    }

    /// The value whose canonical text is `s`, if any.
    pub open spec fn from_spec(s: Seq<char>) -> Option<Cadence> {
        if s == "daily"@ {
            Some(Cadence::Daily)
        } else if s == "weekdays"@ {
            Some(Cadence::Weekdays)
        } else if s == "weekly"@ {
            Some(Cadence::Weekly)
        } else if s == "freeform"@ {
            Some(Cadence::Freeform)
        } else {
            None
        }
    }

    /// The canonical database/text representation.
    pub fn as_str(self) -> (r: &'static str)
        ensures
            r@ == self.text(),
    {
        match self {
            Cadence::Daily => "daily",
            Cadence::Weekdays => "weekdays",
            Cadence::Weekly => "weekly",
            Cadence::Freeform => "freeform",
        }
    }

    /// Parses the canonical text.
    pub fn from_text(s: &str) -> (r: Result<Cadence, InvalidEnumValue>)
        ensures
            r is Ok <==> Cadence::from_spec(s@) is Some,
            r matches Ok(c) ==> Cadence::from_spec(s@) == Some(c),
            r matches Err(e) ==> e.kind@ == "Cadence"@ && e.value@ == s@,
    {
        if str_eq(s, "daily") {
            Ok(Cadence::Daily)
        } else if str_eq(s, "weekdays") {
            Ok(Cadence::Weekdays)
        } else if str_eq(s, "weekly") {
            Ok(Cadence::Weekly)
        } else if str_eq(s, "freeform") {
            Ok(Cadence::Freeform)
        } else {
            Err(InvalidEnumValue { kind: "Cadence", value: s.to_owned() })
        }
    }
}

impl DetectionMode {
    /// The canonical text of each value.
    pub open spec fn text(self) -> Seq<char> {
        match self {
            DetectionMode::ContextMenu => "context_menu"@,
            DetectionMode::Passive => "passive"@,
        }
    }

    /// The value whose canonical text is `s`, if any.
    pub open spec fn from_spec(s: Seq<char>) -> Option<DetectionMode> {
        if s == "context_menu"@ {
            Some(DetectionMode::ContextMenu)
        } else if s == "passive"@ {
            Some(DetectionMode::Passive)
        } else {
            None
        }
    }

    /// The canonical database/text representation.
    pub fn as_str(self) -> (r: &'static str)
        ensures
            r@ == self.text(),
    {
        match self {
            DetectionMode::ContextMenu => "context_menu",
            DetectionMode::Passive => "passive",
        }
    }

    /// Parses the canonical text.
    pub fn from_text(s: &str) -> (r: Result<DetectionMode, InvalidEnumValue>)
        ensures
            r is Ok <==> DetectionMode::from_spec(s@) is Some,
            r matches Ok(c) ==> DetectionMode::from_spec(s@) == Some(c),
            r matches Err(e) ==> e.kind@ == "DetectionMode"@ && e.value@ == s@,
    {
        if str_eq(s, "context_menu") {
            Ok(DetectionMode::ContextMenu)
        } else if str_eq(s, "passive") {
            Ok(DetectionMode::Passive)
        } else {
            Err(InvalidEnumValue { kind: "DetectionMode", value: s.to_owned() })
        }
    }
}

impl Privacy {
    /// The canonical text of each value.
    pub open spec fn text(self) -> Seq<char> {
        match self {
            Privacy::Public => "public"@,
            Privacy::RoleGated => "role_gated"@,
            Privacy::CreatorOnly => "creator_only"@,
        }
    }

    /// The value whose canonical text is `s`, if any.
    pub open spec fn from_spec(s: Seq<char>) -> Option<Privacy> {
        if s == "public"@ {
            Some(Privacy::Public)
        } else if s == "role_gated"@ {
            Some(Privacy::RoleGated)
        } else if s == "creator_only"@ {
            Some(Privacy::CreatorOnly)
        } else {
            None
        }
    }

    /// The canonical database/text representation.
    pub fn as_str(self) -> (r: &'static str)
        ensures
            r@ == self.text(),
    {
        match self {
            Privacy::Public => "public",
            Privacy::RoleGated => "role_gated",
            Privacy::CreatorOnly => "creator_only",
        }
    }

    /// Parses the canonical text.
    pub fn from_text(s: &str) -> (r: Result<Privacy, InvalidEnumValue>)
        ensures
            r is Ok <==> Privacy::from_spec(s@) is Some,
            r matches Ok(c) ==> Privacy::from_spec(s@) == Some(c),
            r matches Err(e) ==> e.kind@ == "Privacy"@ && e.value@ == s@,
    {
        if str_eq(s, "public") {
            Ok(Privacy::Public)
        } else if str_eq(s, "role_gated") {
            Ok(Privacy::RoleGated)
        } else if str_eq(s, "creator_only") {
            Ok(Privacy::CreatorOnly)
        } else {
            Err(InvalidEnumValue { kind: "Privacy", value: s.to_owned() })
        }
    }
}

impl SeriesState {
    /// The canonical text of each value.
    pub open spec fn text(self) -> Seq<char> {
        match self {
            SeriesState::Sprout => "sprout"@,
            SeriesState::Active => "active"@,
            SeriesState::Revoked => "revoked"@,
        }
    }

    /// The value whose canonical text is `s`, if any.
    pub open spec fn from_spec(s: Seq<char>) -> Option<SeriesState> {
        if s == "sprout"@ {
            Some(SeriesState::Sprout)
        } else if s == "active"@ {
            Some(SeriesState::Active)
        } else if s == "revoked"@ {
            Some(SeriesState::Revoked)
        } else {
            None
        }
    }

    /// The canonical database/text representation.
    pub fn as_str(self) -> (r: &'static str)
        ensures
            r@ == self.text(),
    {
        match self {
            SeriesState::Sprout => "sprout",
            SeriesState::Active => "active",
            SeriesState::Revoked => "revoked",
        }
    }

    /// Parses the canonical text.
    pub fn from_text(s: &str) -> (r: Result<SeriesState, InvalidEnumValue>)
        ensures
            r is Ok <==> SeriesState::from_spec(s@) is Some,
            r matches Ok(c) ==> SeriesState::from_spec(s@) == Some(c),
            r matches Err(e) ==> e.kind@ == "SeriesState"@ && e.value@ == s@,
    {
        if str_eq(s, "sprout") {
            Ok(SeriesState::Sprout)
        } else if str_eq(s, "active") {
            Ok(SeriesState::Active)
        } else if str_eq(s, "revoked") {
            Ok(SeriesState::Revoked)
        } else {
            Err(InvalidEnumValue { kind: "SeriesState", value: s.to_owned() })
        }
    }
}

/// Every enum value's canonical text parses back to that value.
pub proof fn lemma_enum_text_round_trip(c: Cadence, d: DetectionMode, p: Privacy, st: SeriesState)
    ensures
        Cadence::from_spec(c.text()) == Some(c),
        DetectionMode::from_spec(d.text()) == Some(d),
        Privacy::from_spec(p.text()) == Some(p),
        SeriesState::from_spec(st.text()) == Some(st),
{
    reveal_strlit("daily");
    reveal_strlit("weekdays");
    reveal_strlit("weekly");
    reveal_strlit("freeform");
    reveal_strlit("context_menu");
    reveal_strlit("passive");
    reveal_strlit("public");
    reveal_strlit("role_gated");
    reveal_strlit("creator_only");
    reveal_strlit("sprout");
    reveal_strlit("active");
    reveal_strlit("revoked");
    assert("weekdays"@[0] != "freeform"@[0]);
    assert("sprout"@[0] != "active"@[0]);
    assert("weekly"@[4] != "weekdays"@[4]);
    assert("passive"@[0] != "context_menu"@[0]);
    assert("public"@[0] != "role_gated"@[0]);
    assert("public"@[0] != "creator_only"@[0]);
    assert("role_gated"@[0] != "creator_only"@[0]);
    assert("revoked"@[0] != "sprout"@[0]);
    assert("revoked"@[0] != "active"@[0]);
    assert("daily"@[0] != "weekly"@[0]);
    assert("daily"@[0] != "freeform"@[0]);
    assert("weekly"@[0] != "freeform"@[0]);
}

impl core::str::FromStr for Cadence {
    type Err = InvalidEnumValue;

    fn from_str(s: &str) -> (r: Result<Self, Self::Err>)
        ensures
            r is Ok <==> Cadence::from_spec(s@) is Some,
            r matches Ok(c) ==> Cadence::from_spec(s@) == Some(c),
            r matches Err(e) ==> e.kind@ == "Cadence"@ && e.value@ == s@,
    {
        Cadence::from_text(s)
    }
}

impl core::str::FromStr for DetectionMode {
    type Err = InvalidEnumValue;

    fn from_str(s: &str) -> (r: Result<Self, Self::Err>)
        ensures
            r is Ok <==> DetectionMode::from_spec(s@) is Some,
            r matches Ok(c) ==> DetectionMode::from_spec(s@) == Some(c),
            r matches Err(e) ==> e.kind@ == "DetectionMode"@ && e.value@ == s@,
    {
        DetectionMode::from_text(s)
    }
}

impl core::str::FromStr for Privacy {
    type Err = InvalidEnumValue;

    fn from_str(s: &str) -> (r: Result<Self, Self::Err>)
        ensures
            r is Ok <==> Privacy::from_spec(s@) is Some,
            r matches Ok(c) ==> Privacy::from_spec(s@) == Some(c),
            r matches Err(e) ==> e.kind@ == "Privacy"@ && e.value@ == s@,
    {
        Privacy::from_text(s)
    }
}

impl core::str::FromStr for SeriesState {
    type Err = InvalidEnumValue;

    fn from_str(s: &str) -> (r: Result<Self, Self::Err>)
        ensures
            r is Ok <==> SeriesState::from_spec(s@) is Some,
            r matches Ok(c) ==> SeriesState::from_spec(s@) == Some(c),
            r matches Err(e) ==> e.kind@ == "SeriesState"@ && e.value@ == s@,
    {
        SeriesState::from_text(s)
    }
}

/// Per-guild configuration (one row per guild).
#[derive(Debug, Clone, PartialEq, Eq)]
pub struct GuildSettings {
    /// Guild snowflake.
    pub guild_id: String,
    /// Whether `/setup` has been completed; gates all series features.
    pub setup_complete: bool,
    /// Channel for quiet one-line archive confirmations.
    pub log_channel_id: Option<String>,
    /// Channels series are allowed to watch.
    pub watched_channels: Vec<String>,
    /// Role required to create series, if any.
    pub creator_role_id: Option<String>,
    /// Default IANA timezone for the guild.
    pub timezone: String,
    /// Creation policy: maximum live series per creator.
    pub max_series_per_user: i64,
    /// Creation policy: minimum Discord account age in days.
    pub min_account_age_days: i64,
    /// Creation policy: minimum guild membership age in days.
    pub min_membership_age_days: i64,
    /// Whether new series start in sprout probation.
    pub sprout_enabled: bool,
    /// Archived-post count at which a sprout is promoted.
    pub sprout_threshold: i64,
    /// Active dialogue persona name.
    pub active_persona: String,
}

impl GuildSettings {
    /// Settings for a freshly joined, not-yet-set-up guild.
    pub fn defaults_for(guild_id: &str) -> (r: GuildSettings)
        ensures
            r.guild_id@ == guild_id@,
            !r.setup_complete,
            r.log_channel_id is None,
            r.watched_channels@.len() == 0,
            r.creator_role_id is None,
            r.timezone@ == "UTC"@,
            r.max_series_per_user == 3,
            r.min_account_age_days == 0,
            r.min_membership_age_days == 0,
            !r.sprout_enabled,
            r.sprout_threshold == 3,
            r.active_persona@ == "default"@,
    {
        GuildSettings {
            guild_id: guild_id.to_owned(),
            setup_complete: false,
            log_channel_id: None,
            watched_channels: Vec::new(),
            creator_role_id: None,
            timezone: "UTC".to_owned(),
            max_series_per_user: 3,
            min_account_age_days: 0,
            min_membership_age_days: 0,
            sprout_enabled: false,
            sprout_threshold: 3,
            active_persona: "default".to_owned(),
        }
    }
}

/// A creator's ongoing archive within a guild.
#[derive(Debug, Clone, PartialEq, Eq)]
pub struct Series {
    /// Database id.
    pub id: i64,
    /// Guild snowflake.
    pub guild_id: String,
    /// Creator user snowflake.
    pub creator_id: String,
    /// Display name, unique per guild.
    pub name: String,
    /// Free-text description.
    pub description: String,
    /// Watched channels (subset of the guild's `watched_channels`).
    pub channels: Vec<String>,
    /// Posting cadence.
    pub cadence: Cadence,
    /// Capture mode.
    pub detection_mode: DetectionMode,
    /// Visibility.
    pub privacy: Privacy,
    /// Role for [`Privacy::RoleGated`].
    pub privacy_role_id: Option<String>,
    /// Day number the series starts at (usually 1).
    pub start_day: i64,
    /// Whether reminders are enabled.
    pub reminder_enabled: bool,
    /// Reminder time of day, `HH:MM`.
    pub reminder_time: Option<String>,
    /// IANA timezone override for reminders.
    pub reminder_timezone: Option<String>,
    /// Remind via DM (true) or channel ping (false).
    pub reminder_dm: bool,
    /// Template for milestone announcements.
    pub milestone_template: Option<String>,
    /// Reaction emoji applied to archived posts.
    pub emoji: String,
    /// Lifecycle state.
    pub state: SeriesState,
    /// Creation time, unix seconds.
    pub created_at: i64,
}

/// Fields required to create a series.
#[derive(Debug, Clone)]
pub struct NewSeries {
    /// Guild snowflake.
    pub guild_id: String,
    /// Creator user snowflake.
    pub creator_id: String,
    /// Display name, unique per guild.
    pub name: String,
    /// Free-text description.
    pub description: String,
    /// Watched channels.
    pub channels: Vec<String>,
    /// Posting cadence.
    pub cadence: Cadence,
    /// Capture mode.
    pub detection_mode: DetectionMode,
    /// Visibility.
    pub privacy: Privacy,
    /// Role for [`Privacy::RoleGated`].
    pub privacy_role_id: Option<String>,
    /// Day number the series starts at.
    pub start_day: i64,
    /// Initial lifecycle state ([`SeriesState::Sprout`] when probation is on).
    pub state: SeriesState,
}

/// One archived day within a series.
#[derive(Debug, Clone, PartialEq, Eq)]
pub struct Post {
    /// Owning series id.
    pub series_id: i64,
    /// Day number (unique within the series).
    pub day: i64,
    /// Source message snowflake.
    pub message_id: String,
    /// Source channel snowflake.
    pub channel_id: String,
    /// Caption (message content at archive time).
    pub caption: String,
    /// Original message timestamp, unix seconds.
    pub posted_at: i64,
    /// Archive timestamp, unix seconds.
    pub archived_at: i64,
}

/// One media file attached to an archived day.
#[derive(Debug, Clone, PartialEq, Eq)]
pub struct MediaAttachment {
    /// Database id.
    pub id: i64,
    /// Owning series id.
    pub series_id: i64,
    /// Owning day number.
    pub day: i64,
    /// Discord attachment snowflake.
    pub attachment_id: String,
    /// Source channel snowflake.
    pub channel_id: String,
    /// Source message snowflake.
    pub message_id: String,
    /// MIME type as reported by Discord.
    pub content_type: String,
    /// Object key of the original; `None` iff `media_missing`.
    pub original_key: Option<String>,
    /// Object key of the thumbnail.
    pub thumb_key: Option<String>,
    /// True when the source message was gone before media could be fetched.
    pub media_missing: bool,
}

/// Media fields recorded at archive time (ids are assigned by the DB).
#[derive(Debug, Clone, PartialEq, Eq)]
pub struct NewMediaAttachment {
    /// Discord attachment snowflake.
    pub attachment_id: String,
    /// Source channel snowflake.
    pub channel_id: String,
    /// Source message snowflake.
    pub message_id: String,
    /// MIME type.
    pub content_type: String,
    /// Object key of the original.
    pub original_key: Option<String>,
    /// Object key of the thumbnail.
    pub thumb_key: Option<String>,
    /// True when media could not be fetched.
    pub media_missing: bool,
}

/// The text view of an optional string.
pub open spec fn opt_view(o: Option<String>) -> Option<Seq<char>> {
    match o {
        Some(s) => Some(s@),
        None => None,
    }
}

/// The text views of a list of strings.
pub open spec fn strs_view(v: Seq<String>) -> Seq<Seq<char>> {
    v.map_values(|s: String| s@)
}

/// A copy of a list of strings with the same text.
pub fn clone_strings(v: &Vec<String>) -> (r: Vec<String>)
    ensures
        strs_view(r@) == strs_view(v@),
        r@.len() == v@.len(),
        forall|k: int| 0 <= k < v@.len() ==> #[trigger] r@[k]@ == v@[k]@,
{
    let mut r: Vec<String> = Vec::new();
    let mut i: usize = 0;
    while i < v.len()
        invariant
            0 <= i <= v.len(),
            r@.len() == i,
            forall|k: int| 0 <= k < i ==> #[trigger] r@[k]@ == v@[k]@,
        decreases v.len() - i,
    {
        let c = v[i].clone();
        r.push(c);
        i += 1;
    }
    assert(strs_view(r@) =~= strs_view(v@));
    r
}

/// A copy of an optional string with the same text.
pub fn clone_opt(o: &Option<String>) -> (r: Option<String>)
    ensures
        opt_view(r) == opt_view(*o),
{
    match o {
        Some(s) => Some(s.clone()),
        None => None,
    }
}

} // verus!
