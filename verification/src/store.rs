//! Stored rows: how series and guild settings sit in database columns, the
//! JSON text form of the snowflake lists kept in one column, and the errors
//! of the repository layer.
//!
//! Running the SQL is the caller's I/O; this module turns the values of a
//! row into domain values and back.

use vstd::prelude::*;

use crate::domain::{
    Cadence, DetectionMode, GuildSettings, InvalidEnumValue, Privacy, Series, SeriesState,
    invalid_enum_text, strs_view,
};
use crate::text::{int_dec, push_i64_dec, push_str};

verus! {

/// The JSON text serde_json writes for a list of strings.
pub uninterp spec fn json_of_ids(ids: Seq<Seq<char>>) -> Seq<char>;

/// The list of strings serde_json reads from a JSON text; `None` when the
/// text is not a JSON array of strings.
pub uninterp spec fn ids_of_json(text: Seq<char>) -> Option<Seq<Seq<char>>>;

/// `serde_json::to_string` of a list of strings. serde_json documents that
/// serialising fails only for a failing `Serialize` impl or a map with
/// non-string keys, neither of which a `Vec<String>` has. Claimed: the text
/// is `json_of_ids` of the strings, and serde_json reads the same strings
/// back from it.
#[verifier::external_body]
fn json_text(ids: &Vec<String>) -> (r: String)
    ensures
        r@ == json_of_ids(strs_view(ids@)),
        ids_of_json(r@) == Some(strs_view(ids@)),
{
    match serde_json::to_string(ids) {
        Ok(text) => text,
        Err(_) => String::new(),
    }
}

/// `serde_json::from_str::<Vec<String>>`; a failure becomes its message.
/// Claimed: it succeeds exactly when `ids_of_json` gives a list, with that
/// list; nothing is claimed about the message.
#[verifier::external_body]
fn json_ids(text: &str) -> (r: Result<Vec<String>, String>)
    ensures
        match r {
            Ok(v) => ids_of_json(text@) == Some(strs_view(v@)),
            Err(_) => ids_of_json(text@) is None,
        },
{
    serde_json::from_str::<Vec<String>>(text).map_err(|e| e.to_string())
}

/// Errors produced by the repository layer.
#[derive(Debug, Clone, PartialEq, Eq)]
pub enum DbError {
    /// Underlying driver error, by its message.
    Sqlx(String),
    /// Migration failure at startup, by its message.
    Migrate(String),
    /// A stored string column held a value outside its enum domain.
    Corrupt(InvalidEnumValue),
    /// A stored JSON column failed to parse.
    CorruptJson(String),
    /// A series name already exists in this guild.
    SeriesNameTaken,
    /// The day is already archived for this series.
    DuplicateDay(i64),
}

/// The text of a repository error.
pub open spec fn db_error_text(e: DbError) -> Seq<char> {
    match e {
        DbError::Sqlx(m) => m@,
        DbError::Migrate(m) => m@,
        DbError::Corrupt(v) => invalid_enum_text(v),
        DbError::CorruptJson(m) => "corrupt JSON column: "@ + m@,
        DbError::SeriesNameTaken => "a series with this name already exists in this guild"@,
        DbError::DuplicateDay(d) => "day "@ + int_dec(d as int) + " is already archived for this series"@,
    }
}

impl DbError {
    /// The error's message (its `Display` text).
    pub fn message(&self) -> (r: String)
        ensures
            r@ == db_error_text(*self),
    {
        match self {
            DbError::Sqlx(m) => m.clone(),
            DbError::Migrate(m) => m.clone(),
            DbError::Corrupt(v) => v.message(),
            DbError::CorruptJson(m) => {
                let mut s = String::new();
                push_str(&mut s, "corrupt JSON column: ");
                push_str(&mut s, m.as_str());
                s
            },
            DbError::SeriesNameTaken => "a series with this name already exists in this guild".to_owned(),
            DbError::DuplicateDay(d) => {
                let mut s = String::new();
                push_str(&mut s, "day ");
                push_i64_dec(&mut s, *d);
                push_str(&mut s, " is already archived for this series");
                s
            },
        }
    }
}

/// Serialises a list of snowflakes into the JSON TEXT column form; reading
/// the text back gives the same list.
pub fn to_json_ids(ids: &Vec<String>) -> (r: String)
    ensures
        r@ == json_of_ids(strs_view(ids@)),
        ids_of_json(r@) == Some(strs_view(ids@)),
{
    json_text(ids)
}

/// Parses the JSON TEXT column form back into snowflakes.
pub fn from_json_ids(raw: &str) -> (r: Result<Vec<String>, DbError>)
    ensures
        match r {
            Ok(v) => ids_of_json(raw@) == Some(strs_view(v@)),
            Err(e) => ids_of_json(raw@) is None && e is CorruptJson,
        },
{
    match json_ids(raw) {
        Ok(v) => Ok(v),
        Err(m) => Err(DbError::CorruptJson(m)),
    }
}

/// The columns of one stored series.
#[derive(Debug, Clone)]
pub struct SeriesRow {
    pub id: i64,
    pub guild_id: String,
    pub creator_id: String,
    pub name: String,
    pub description: String,
    /// JSON array of channel snowflakes.
    pub channels: String,
    pub cadence: String,
    pub detection_mode: String,
    pub privacy: String,
    pub privacy_role_id: Option<String>,
    pub start_day: i64,
    /// 0 is false, anything else true.
    pub reminder_enabled: i64,
    pub reminder_time: Option<String>,
    pub reminder_timezone: Option<String>,
    /// 0 is false, anything else true.
    pub reminder_dm: i64,
    pub milestone_template: Option<String>,
    pub emoji: String,
    pub state: String,
    pub created_at: i64,
}

/// `e` reports that the text `value` is not a `kind`.
pub open spec fn corrupt_as(e: DbError, kind: Seq<char>, value: Seq<char>) -> bool {
    e matches DbError::Corrupt(v) && v.kind@ == kind && v.value@ == value
}

/// Whether every column of a series row holds a value of its domain.
pub open spec fn series_row_sound(row: SeriesRow) -> bool {
    &&& ids_of_json(row.channels@) is Some
    &&& Cadence::from_spec(row.cadence@) is Some
    &&& DetectionMode::from_spec(row.detection_mode@) is Some
    &&& Privacy::from_spec(row.privacy@) is Some
    &&& SeriesState::from_spec(row.state@) is Some
}

/// The first faulty column of a series row, checked in column order, is
/// what `e` reports.
pub open spec fn series_row_fault(row: SeriesRow, e: DbError) -> bool {
    if ids_of_json(row.channels@) is None {
        e is CorruptJson
    } else if Cadence::from_spec(row.cadence@) is None {
        corrupt_as(e, "Cadence"@, row.cadence@)
    } else if DetectionMode::from_spec(row.detection_mode@) is None {
        corrupt_as(e, "DetectionMode"@, row.detection_mode@)
    } else if Privacy::from_spec(row.privacy@) is None {
        corrupt_as(e, "Privacy"@, row.privacy@)
    } else {
        corrupt_as(e, "SeriesState"@, row.state@)
    }
}

/// `s` is the series a sound row describes, field by field.
pub open spec fn series_of_row(row: SeriesRow, s: Series) -> bool {
    &&& s.id == row.id
    &&& s.guild_id@ == row.guild_id@
    &&& s.creator_id@ == row.creator_id@
    &&& s.name@ == row.name@
    &&& s.description@ == row.description@
    &&& ids_of_json(row.channels@) == Some(strs_view(s.channels@))
    &&& Cadence::from_spec(row.cadence@) == Some(s.cadence)
    &&& DetectionMode::from_spec(row.detection_mode@) == Some(s.detection_mode)
    &&& Privacy::from_spec(row.privacy@) == Some(s.privacy)
    &&& s.privacy_role_id == row.privacy_role_id
    &&& s.start_day == row.start_day
    &&& s.reminder_enabled == (row.reminder_enabled != 0)
    &&& s.reminder_time == row.reminder_time
    &&& s.reminder_timezone == row.reminder_timezone
    &&& s.reminder_dm == (row.reminder_dm != 0)
    &&& s.milestone_template == row.milestone_template
    &&& s.emoji@ == row.emoji@
    &&& SeriesState::from_spec(row.state@) == Some(s.state)
    &&& s.created_at == row.created_at
}

impl SeriesRow {
    /// The series a row describes; a column outside its domain is reported
    /// as corruption.
    pub fn into_series(self) -> (r: Result<Series, DbError>)
        ensures
            r is Ok <==> series_row_sound(self),
            r matches Ok(s) ==> series_of_row(self, s),
            r matches Err(e) ==> series_row_fault(self, e),
    {
        let ghost row = self;
        let SeriesRow {
            id,
            guild_id,
            creator_id,
            name,
            description,
            channels,
            cadence,
            detection_mode,
            privacy,
            privacy_role_id,
            start_day,
            reminder_enabled,
            reminder_time,
            reminder_timezone,
            reminder_dm,
            milestone_template,
            emoji,
            state,
            created_at,
        } = self;
        let channels = match from_json_ids(channels.as_str()) {
            Ok(v) => v,
            Err(e) => return Err(e),
        };
        let cadence = match Cadence::from_text(cadence.as_str()) {
            Ok(c) => c,
            Err(e) => return Err(DbError::Corrupt(e)),
        };
        let detection_mode = match DetectionMode::from_text(detection_mode.as_str()) {
            Ok(d) => d,
            Err(e) => return Err(DbError::Corrupt(e)),
        };
        let privacy = match Privacy::from_text(privacy.as_str()) {
            Ok(p) => p,
            Err(e) => return Err(DbError::Corrupt(e)),
        };
        let state = match SeriesState::from_text(state.as_str()) {
            Ok(s) => s,
            Err(e) => return Err(DbError::Corrupt(e)),
        };
        let s = Series {
            id,
            guild_id,
            creator_id,
            name,
            description,
            channels,
            cadence,
            detection_mode,
            privacy,
            privacy_role_id,
            start_day,
            reminder_enabled: reminder_enabled != 0,
            reminder_time,
            reminder_timezone,
            reminder_dm: reminder_dm != 0,
            milestone_template,
            emoji,
            state,
            created_at,
        };
        assert(series_of_row(row, s));
        Ok(s)
    }
}

/// The columns of one guild's settings.
#[derive(Debug, Clone, PartialEq, Eq)]
pub struct GuildRow {
    pub guild_id: String,
    /// 0 is false, anything else true.
    pub setup_complete: i64,
    pub log_channel_id: Option<String>,
    /// JSON array of channel snowflakes.
    pub watched_channels: String,
    pub creator_role_id: Option<String>,
    pub timezone: String,
    pub max_series_per_user: i64,
    pub min_account_age_days: i64,
    pub min_membership_age_days: i64,
    /// 0 is false, anything else true.
    pub sprout_enabled: i64,
    pub sprout_threshold: i64,
    pub active_persona: String,
}

/// `s` holds the values of `row`, with the watched channels read from
/// their JSON text `channels`.
pub open spec fn settings_of_row(row: GuildRow, s: GuildSettings) -> bool {
    &&& s.guild_id@ == row.guild_id@
    &&& s.setup_complete == (row.setup_complete != 0)
    &&& s.log_channel_id == row.log_channel_id
    &&& ids_of_json(row.watched_channels@) == Some(strs_view(s.watched_channels@))
    &&& s.creator_role_id == row.creator_role_id
    &&& s.timezone@ == row.timezone@
    &&& s.max_series_per_user == row.max_series_per_user
    &&& s.min_account_age_days == row.min_account_age_days
    &&& s.min_membership_age_days == row.min_membership_age_days
    &&& s.sprout_enabled == (row.sprout_enabled != 0)
    &&& s.sprout_threshold == row.sprout_threshold
    &&& s.active_persona@ == row.active_persona@
}

/// The flag a boolean is stored as.
pub open spec fn flag(b: bool) -> i64 {
    if b {
        1
    } else {
        0
    }
}

impl GuildRow {
    /// The settings a row describes; unreadable watched channels are
    /// reported as corruption.
    pub fn into_settings(self) -> (r: Result<GuildSettings, DbError>)
        ensures
            r is Ok <==> ids_of_json(self.watched_channels@) is Some,
            r matches Ok(s) ==> settings_of_row(self, s),
            r matches Err(e) ==> e is CorruptJson,
    {
        let ghost row = self;
        let GuildRow {
            guild_id,
            setup_complete,
            log_channel_id,
            watched_channels,
            creator_role_id,
            timezone,
            max_series_per_user,
            min_account_age_days,
            min_membership_age_days,
            sprout_enabled,
            sprout_threshold,
            active_persona,
        } = self;
        let watched = match from_json_ids(watched_channels.as_str()) {
            Ok(v) => v,
            Err(e) => return Err(e),
        };
        let s = GuildSettings {
            guild_id,
            setup_complete: setup_complete != 0,
            log_channel_id,
            watched_channels: watched,
            creator_role_id,
            timezone,
            max_series_per_user,
            min_account_age_days,
            min_membership_age_days,
            sprout_enabled: sprout_enabled != 0,
            sprout_threshold,
            active_persona,
        };
        assert(settings_of_row(row, s));
        Ok(s)
    }

    /// The row that stores `s` (booleans as 1 / 0, the watched channels as
    /// JSON text).
    pub fn of_settings(s: &GuildSettings) -> (r: GuildRow)
        ensures
            settings_of_row(r, *s),
            r.setup_complete == flag(s.setup_complete),
            r.sprout_enabled == flag(s.sprout_enabled),
            r.watched_channels@ == json_of_ids(strs_view(s.watched_channels@)),
    {
        GuildRow {
            guild_id: s.guild_id.clone(),
            setup_complete: if s.setup_complete {
                1
            } else {
                0
            },
            log_channel_id: s.log_channel_id.clone(),
            watched_channels: to_json_ids(&s.watched_channels),
            creator_role_id: s.creator_role_id.clone(),
            timezone: s.timezone.clone(),
            max_series_per_user: s.max_series_per_user,
            min_account_age_days: s.min_account_age_days,
            min_membership_age_days: s.min_membership_age_days,
            sprout_enabled: if s.sprout_enabled {
                1
            } else {
                0
            },
            sprout_threshold: s.sprout_threshold,
            active_persona: s.active_persona.clone(),
        }
    }
}

/// The storage keys of a deleted day's media rows `(original, thumb)`, in
/// row order, original before thumbnail, absent keys skipped.
pub open spec fn stored_keys(rows: Seq<(Option<String>, Option<String>)>) -> Seq<Seq<char>>
    decreases rows.len(),
{
    if rows.len() == 0 {
        Seq::empty()
    } else {
        let prev = stored_keys(rows.drop_last());
        let (o, t) = rows.last();
        let with_o = match o {
            Some(k) => prev.push(k@),
            None => prev,
        };
        match t {
            Some(k) => with_o.push(k@),
            None => with_o,
        }
    }
}

/// The keys to remove from storage when a day is deleted.
pub fn deleted_keys(rows: &Vec<(Option<String>, Option<String>)>) -> (r: Vec<String>)
    ensures
        strs_view(r@) == stored_keys(rows@),
{
    let mut keys: Vec<String> = Vec::new();
    let mut i: usize = 0;
    while i < rows.len()
        invariant
            i <= rows.len(),
            strs_view(keys@) == stored_keys(rows@.take(i as int)),
        decreases rows.len() - i,
    {
        assert(rows@.take(i + 1).drop_last() == rows@.take(i as int));
        let (o, t) = &rows[i];
        match o {
            Some(k) => keys.push(k.clone()),
            None => {},
        }
        match t {
            Some(k) => keys.push(k.clone()),
            None => {},
        }
        i = i + 1;
        assert(strs_view(keys@) =~= stored_keys(rows@.take(i as int)));
    }
    assert(rows@.take(rows.len() as int) == rows@);
    keys
}

} // verus!
