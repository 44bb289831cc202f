use leaf::domain::{Cadence, DetectionMode, GuildSettings, InvalidEnumValue, Privacy, SeriesState};
use leaf::series_ops::{CreateError, UpdateError, finish_create, finish_update};
use leaf::store::{DbError, GuildRow, SeriesRow, deleted_keys, from_json_ids, to_json_ids};

fn row() -> SeriesRow {
    SeriesRow {
        id: 7,
        guild_id: "g1".to_owned(),
        creator_id: "u1".to_owned(),
        name: "Sketches".to_owned(),
        description: "daily drawings".to_owned(),
        channels: "[\"c1\",\"c2\"]".to_owned(),
        cadence: "weekdays".to_owned(),
        detection_mode: "context_menu".to_owned(),
        privacy: "role_gated".to_owned(),
        privacy_role_id: Some("r9".to_owned()),
        start_day: 3,
        reminder_enabled: 1,
        reminder_time: Some("09:30".to_owned()),
        reminder_timezone: None,
        reminder_dm: 0,
        milestone_template: None,
        emoji: "🌿".to_owned(),
        state: "sprout".to_owned(),
        created_at: 1_700_000_000,
    }
}

#[test]
fn json_id_round_trip() {
    let ids = vec!["123".to_owned(), "456".to_owned()];
    let raw = to_json_ids(&ids);
    assert_eq!(from_json_ids(&raw).unwrap(), ids);
    assert_eq!(from_json_ids("[]").unwrap(), Vec::<String>::new());
}

#[test]
fn json_ids_are_a_json_array_of_strings() {
    assert_eq!(to_json_ids(&vec!["1".to_owned()]), "[\"1\"]");
    assert_eq!(to_json_ids(&Vec::new()), "[]");
    let odd = vec!["a\"b".to_owned(), "back\\slash".to_owned()];
    assert_eq!(from_json_ids(&to_json_ids(&odd)).unwrap(), odd);
    assert!(matches!(from_json_ids("not json"), Err(DbError::CorruptJson(_))));
    assert!(matches!(from_json_ids("[1, 2]"), Err(DbError::CorruptJson(_))));
}

#[test]
fn series_row_maps_every_column() {
    let s = row().into_series().unwrap();
    assert_eq!(s.id, 7);
    assert_eq!(s.name, "Sketches");
    assert_eq!(s.channels, vec!["c1".to_owned(), "c2".to_owned()]);
    assert_eq!(s.cadence, Cadence::Weekdays);
    assert_eq!(s.detection_mode, DetectionMode::ContextMenu);
    assert_eq!(s.privacy, Privacy::RoleGated);
    assert_eq!(s.privacy_role_id.as_deref(), Some("r9"));
    assert_eq!(s.start_day, 3);
    assert!(s.reminder_enabled);
    assert!(!s.reminder_dm);
    assert_eq!(s.state, SeriesState::Sprout);
    assert_eq!(s.created_at, 1_700_000_000);
}

#[test]
fn corrupt_series_columns_are_reported_in_column_order() {
    let mut r = row();
    r.cadence = "hourly".to_owned();
    r.state = "zombie".to_owned();
    let err = r.into_series().unwrap_err();
    assert_eq!(
        err,
        DbError::Corrupt(InvalidEnumValue { kind: "Cadence", value: "hourly".to_owned() })
    );
    assert_eq!(err.message(), "invalid Cadence value: hourly");

    let mut r = row();
    r.channels = "{".to_owned();
    r.cadence = "hourly".to_owned();
    assert!(matches!(r.into_series(), Err(DbError::CorruptJson(_))));

    let mut r = row();
    r.state = "zombie".to_owned();
    assert_eq!(
        r.into_series().unwrap_err(),
        DbError::Corrupt(InvalidEnumValue { kind: "SeriesState", value: "zombie".to_owned() })
    );
}

#[test]
fn guild_settings_round_trip_through_a_row() {
    let mut s = GuildSettings::defaults_for("g2");
    s.setup_complete = true;
    s.log_channel_id = Some("c-log".to_owned());
    s.watched_channels = vec!["c1".to_owned(), "c2".to_owned()];
    s.creator_role_id = Some("r1".to_owned());
    s.timezone = "America/Chicago".to_owned();
    s.max_series_per_user = 5;
    s.min_account_age_days = 30;
    s.min_membership_age_days = 7;
    s.sprout_enabled = true;
    s.sprout_threshold = 4;
    s.active_persona = "weary".to_owned();

    let r = GuildRow::of_settings(&s);
    assert_eq!(r.setup_complete, 1);
    assert_eq!(r.sprout_enabled, 1);
    assert_eq!(r.watched_channels, "[\"c1\",\"c2\"]");
    assert_eq!(r.into_settings().unwrap(), s);

    let d = GuildSettings::defaults_for("g3");
    let r = GuildRow::of_settings(&d);
    assert_eq!((r.setup_complete, r.sprout_enabled), (0, 0));
    assert_eq!(r.into_settings().unwrap(), d);
}

#[test]
fn unreadable_watched_channels_are_corrupt() {
    let mut r = GuildRow::of_settings(&GuildSettings::defaults_for("g"));
    r.watched_channels = "oops".to_owned();
    let err = r.into_settings().unwrap_err();
    assert!(matches!(err, DbError::CorruptJson(_)));
    assert!(err.message().starts_with("corrupt JSON column: "));
}

#[test]
fn deleting_a_day_frees_original_then_thumb_keys() {
    let rows = vec![
        (Some("o1".to_owned()), Some("t1".to_owned())),
        (None, None),
        (Some("o3".to_owned()), None),
    ];
    assert_eq!(deleted_keys(&rows), vec!["o1", "t1", "o3"]);
    assert!(deleted_keys(&Vec::new()).is_empty());
}

#[test]
fn repository_error_messages() {
    assert_eq!(DbError::DuplicateDay(42).message(), "day 42 is already archived for this series");
    assert_eq!(
        DbError::SeriesNameTaken.message(),
        "a series with this name already exists in this guild"
    );
    assert_eq!(DbError::Sqlx("boom".to_owned()).message(), "boom");
}

#[test]
fn write_outcomes_map_a_taken_name_and_keep_other_failures() {
    let s = row().into_series().unwrap();
    assert_eq!(finish_create(Ok(s.clone())).unwrap(), s);
    assert_eq!(finish_create(Err(DbError::SeriesNameTaken)).unwrap_err(), CreateError::NameTaken);
    assert_eq!(
        finish_create(Err(DbError::Sqlx("disk full".to_owned()))).unwrap_err(),
        CreateError::Db(DbError::Sqlx("disk full".to_owned()))
    );
    assert_eq!(finish_update(s.clone(), Ok(())).unwrap(), s);
    assert_eq!(
        finish_update(s.clone(), Err(DbError::SeriesNameTaken)).unwrap_err(),
        UpdateError::NameTaken
    );
    assert_eq!(
        finish_update(s, Err(DbError::DuplicateDay(3))).unwrap_err(),
        UpdateError::Db(DbError::DuplicateDay(3))
    );
}
