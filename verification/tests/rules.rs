use chrono::TimeZone;
use leaf::domain::{Cadence, DetectionMode, GuildSettings, Privacy, Series, SeriesState};
use leaf::parser::{Confidence, parse_day_numbers, suggested_day};
use leaf::policy::{
    CreationContext, DAY_SECS, PolicyViolation, Viewer, can_view, channel_allowed, check_creation,
};
use leaf::reminder::{ReminderInputs, reminder_due};
use leaf::series_ops::{
    CreateError, CreateSeriesInput, DISCORD_EPOCH_MS, Forbidden, UpdateError, UpdateSeriesInput,
    ValidationError, account_created_unix, apply_update, assert_owner, build_creation_context,
    validate_create,
};

// --- parser -------------------------------------------------------------

#[test]
fn keyword_numbers_are_high_confidence() {
    for (text, days) in [
        ("Day 100", vec![100]),
        ("daily #50", vec![50]),
        ("DAY    7", vec![7]),
        ("day107 and day 108", vec![107, 108]),
        ("Daily 3 of trying", vec![3]),
    ] {
        let r = parse_day_numbers(text);
        assert_eq!((r.confidence, r.days), (Confidence::High, days), "{text}");
    }
}

#[test]
fn bare_numbers_are_low_confidence() {
    let r = parse_day_numbers("just posting 50");
    assert_eq!((r.confidence, r.days), (Confidence::Low, vec![50]));
    let r = parse_day_numbers("100 then 200");
    assert_eq!((r.confidence, r.days), (Confidence::Low, vec![100, 200]));
}

#[test]
fn no_numbers_is_none() {
    let r = parse_day_numbers("hello world");
    assert_eq!((r.confidence, r.days), (Confidence::NoMatch, vec![]));
    assert_eq!(parse_day_numbers("").confidence, Confidence::NoMatch);
}

#[test]
fn huge_numbers_are_ignored_by_length() {
    // 7+ digit runs match neither pattern (sanity bound): the trailing
    // word boundary stops a partial 6-digit bite out of a longer run.
    assert_eq!(
        parse_day_numbers("day 99999999").confidence,
        Confidence::NoMatch
    );
    assert_eq!(parse_day_numbers("99999999").confidence, Confidence::NoMatch);
    // ...but 6 digits exactly is still fine.
    assert_eq!(parse_day_numbers("day 999999").days, vec![999_999]);
}

#[test]
fn suggestion_requires_single_high_confidence_match() {
    assert_eq!(suggested_day("Day 42"), Some(42));
    assert_eq!(suggested_day("Day 1 or day 2"), None); // ambiguous
    assert_eq!(suggested_day("just 42"), None); // low confidence
    assert_eq!(suggested_day("no numbers"), None);
}

/// The documented patterns, as regular expressions: the scanner must find
/// exactly what they find.
fn regex_days(text: &str) -> (Confidence, Vec<i64>) {
    let high = regex_lite::Regex::new(r"(?i)(?:day|daily)\s*#?(\d{1,6})\b").unwrap();
    let low = regex_lite::Regex::new(r"\b(\d{1,6})\b").unwrap();
    let grab = |re: &regex_lite::Regex| -> Vec<i64> {
        re.captures_iter(text)
            .filter_map(|c| c.get(1))
            .filter_map(|m| m.as_str().parse().ok())
            .collect()
    };
    let h = grab(&high);
    if !h.is_empty() {
        return (Confidence::High, h);
    }
    let l = grab(&low);
    if !l.is_empty() {
        return (Confidence::Low, l);
    }
    (Confidence::NoMatch, Vec::new())
}

#[test]
fn scanner_agrees_with_the_documented_patterns() {
    for text in [
        "Day 100",
        "daily #50",
        "DAY    7",
        "day107 and day 108",
        "Daily 3 of trying",
        "just posting 50",
        "100 then 200",
        "hello world",
        "",
        "day 99999999",
        "99999999",
        "day 999999",
        "days 12 and 13",
        "today 5",
        "birthday 7",
        "day # 9",
        "x1 2y 3",
        "Day 1 or day 2",
        "day_4 day-5",
        "42",
        "1234567 12",
    ] {
        let r = parse_day_numbers(text);
        assert_eq!((r.confidence, r.days), regex_days(text), "{text:?}");
    }
}

// --- policy -------------------------------------------------------------

fn settings() -> GuildSettings {
    let mut s = GuildSettings::defaults_for("g");
    s.watched_channels = vec!["c1".to_owned(), "c2".to_owned()];
    s.max_series_per_user = 2;
    s
}

fn ctx() -> CreationContext {
    CreationContext {
        now_unix: 1_000 * DAY_SECS,
        account_created_unix: 900 * DAY_SECS, // 100 days old
        joined_unix: Some(950 * DAY_SECS),    // 50 days a member
        live_series_count: 0,
        has_creator_role: None,
    }
}

#[test]
fn defaults_allow_creation() {
    assert_eq!(check_creation(&settings(), &ctx()), Ok(()));
}

#[test]
fn each_policy_blocks_individually() {
    let s = settings();

    let mut c = ctx();
    c.live_series_count = 2;
    assert_eq!(check_creation(&s, &c), Err(PolicyViolation::MaxSeries(2)));

    let mut s2 = s.clone();
    s2.min_account_age_days = 365;
    assert_eq!(
        check_creation(&s2, &ctx()),
        Err(PolicyViolation::AccountTooNew(365))
    );

    let mut s3 = s.clone();
    s3.min_membership_age_days = 60;
    assert_eq!(
        check_creation(&s3, &ctx()),
        Err(PolicyViolation::MembershipTooNew(60))
    );

    let mut c2 = ctx();
    c2.has_creator_role = Some(false);
    assert_eq!(
        check_creation(&s, &c2),
        Err(PolicyViolation::MissingCreatorRole)
    );
    let mut c3 = ctx();
    c3.has_creator_role = Some(true);
    assert_eq!(check_creation(&s, &c3), Ok(()));
}

#[test]
fn unknown_join_date_passes_membership_check() {
    // Unknown join counts as "joined now", which fails a nonzero
    // membership requirement (conservative).
    let mut s = settings();
    s.min_membership_age_days = 1;
    let mut c = ctx();
    c.joined_unix = None;
    assert_eq!(
        check_creation(&s, &c),
        Err(PolicyViolation::MembershipTooNew(1))
    );
}

#[test]
fn channel_allowlist() {
    let s = settings();
    assert!(channel_allowed(&s, "c1"));
    assert!(!channel_allowed(&s, "elsewhere"));
}

#[test]
fn violation_messages_name_the_limit() {
    assert_eq!(
        PolicyViolation::MaxSeries(2).message(),
        "you already have 2 series here — the limit is 2. Edit or remove one first"
    );
    assert_eq!(
        PolicyViolation::AccountTooNew(365).message(),
        "your Discord account must be at least 365 days old to start a series here"
    );
}

fn series(state: SeriesState, privacy: Privacy, role: Option<&str>) -> Series {
    Series {
        id: 1,
        guild_id: "g".to_owned(),
        creator_id: "creator".to_owned(),
        name: "s".to_owned(),
        description: String::new(),
        channels: vec![],
        cadence: Cadence::Daily,
        detection_mode: DetectionMode::ContextMenu,
        privacy,
        privacy_role_id: role.map(str::to_owned),
        start_day: 1,
        reminder_enabled: false,
        reminder_time: None,
        reminder_timezone: None,
        reminder_dm: true,
        milestone_template: None,
        emoji: "🍃".to_owned(),
        state,
        created_at: 0,
    }
}

#[test]
fn visibility_matrix() {
    let stranger = Viewer {
        user_id: "u",
        role_ids: &[],
        is_admin: false,
    };
    let creator = Viewer {
        user_id: "creator",
        role_ids: &[],
        is_admin: false,
    };
    let admin = Viewer {
        user_id: "u",
        role_ids: &[],
        is_admin: true,
    };
    let roled_ids = vec!["vip".to_owned()];
    let roled = Viewer {
        user_id: "u",
        role_ids: &roled_ids,
        is_admin: false,
    };

    let public = series(SeriesState::Active, Privacy::Public, None);
    assert!(can_view(&public, &stranger));

    let gated = series(SeriesState::Active, Privacy::RoleGated, Some("vip"));
    assert!(!can_view(&gated, &stranger));
    assert!(can_view(&gated, &roled));
    assert!(can_view(&gated, &creator));

    let private = series(SeriesState::Active, Privacy::CreatorOnly, None);
    assert!(!can_view(&private, &stranger));
    assert!(can_view(&private, &creator));
    assert!(can_view(&private, &admin));

    let sprout = series(SeriesState::Sprout, Privacy::Public, None);
    assert!(!can_view(&sprout, &stranger));
    assert!(can_view(&sprout, &creator));
    assert!(can_view(&sprout, &admin));

    let revoked = series(SeriesState::Revoked, Privacy::Public, None);
    assert!(!can_view(&revoked, &stranger));
    assert!(!can_view(&revoked, &creator));
    assert!(can_view(&revoked, &admin));
}

// --- reminders ----------------------------------------------------------

/// Tuesday 2026-06-09 18:00 Chicago, as unix.
fn tue_18() -> i64 {
    chrono_tz::America::Chicago
        .with_ymd_and_hms(2026, 6, 9, 18, 0, 0)
        .unwrap()
        .timestamp()
}

fn inputs(last_offset_days: i64) -> ReminderInputs<'static> {
    ReminderInputs {
        cadence: Cadence::Daily,
        reminder_time: "17:30",
        timezone: "America/Chicago",
        last_post_at: Some(tue_18() - last_offset_days * 86_400),
        expected_day: 10,
        last_reminder_day: None,
        now_unix: tue_18(),
    }
}

#[test]
fn daily_behind_past_time_is_due() {
    assert!(reminder_due(&inputs(1)));
}

#[test]
fn posted_today_is_not_due() {
    assert!(!reminder_due(&inputs(0)));
}

#[test]
fn before_reminder_time_is_not_due() {
    let mut i = inputs(1);
    i.now_unix = tue_18() - 3600; // 17:00 < 17:30
    assert!(!reminder_due(&i));
}

#[test]
fn at_most_once_per_missing_day() {
    let mut i = inputs(1);
    i.last_reminder_day = Some(10);
    assert!(!reminder_due(&i));
    // A different (older) reminded day does not block.
    i.last_reminder_day = Some(9);
    assert!(reminder_due(&i));
}

#[test]
fn empty_series_and_freeform_never_remind() {
    let mut i = inputs(1);
    i.last_post_at = None;
    assert!(!reminder_due(&i));
    let mut i = inputs(3);
    i.cadence = Cadence::Freeform;
    assert!(!reminder_due(&i));
}

#[test]
fn weekdays_skip_the_weekend() {
    let sat = chrono_tz::America::Chicago
        .with_ymd_and_hms(2026, 6, 13, 18, 0, 0)
        .unwrap()
        .timestamp();
    let mut i = inputs(2);
    i.cadence = Cadence::Weekdays;
    i.now_unix = sat;
    assert!(!reminder_due(&i)); // Saturday: silent
    i.now_unix = sat + 2 * 86_400; // Monday
    assert!(reminder_due(&i));
}

#[test]
fn weekly_compares_iso_weeks() {
    // now = Tue 2026-06-09 (ISO week Mon 06-08 .. Sun 06-14).
    // Posted Mon 06-08 (offset 1) → same ISO week → not behind.
    let mut i = inputs(1);
    i.cadence = Cadence::Weekly;
    assert!(!reminder_due(&i));
    // Posted Tue 06-02 (offset 7) → previous ISO week → behind.
    let mut i = inputs(7);
    i.cadence = Cadence::Weekly;
    assert!(reminder_due(&i));
}

#[test]
fn bad_timezone_falls_back_to_utc_and_bad_time_disables() {
    let mut i = inputs(1);
    i.timezone = "Not/AZone";
    assert!(reminder_due(&i)); // 23:00 UTC ≥ 17:30 — still due under UTC
    let mut i = inputs(1);
    i.reminder_time = "25:99";
    assert!(!reminder_due(&i));
}

#[test]
fn downtime_catchup_is_structural() {
    // Bot was down at 17:30; it is now 22:00 — still due, because the
    // condition is state, not a fired cron slot.
    let mut i = inputs(1);
    i.now_unix = tue_18() + 4 * 3600;
    assert!(reminder_due(&i));
}

// --- series operations --------------------------------------------------

fn ops_ctx() -> CreationContext {
    CreationContext {
        now_unix: 1_000 * 86_400,
        account_created_unix: 900 * 86_400,
        joined_unix: Some(950 * 86_400),
        live_series_count: 0,
        has_creator_role: None,
    }
}

fn create_input() -> CreateSeriesInput {
    CreateSeriesInput {
        name: "Daily Johan".to_owned(),
        description: "one a day".to_owned(),
        channel_id: "c1".to_owned(),
        cadence: Cadence::Daily,
        privacy: Privacy::Public,
        privacy_role_id: None,
        start_day: 1,
    }
}

fn owned_series() -> Series {
    let mut s = series(SeriesState::Active, Privacy::Public, None);
    s.channels = vec!["c1".to_owned()];
    s
}

#[test]
fn valid_create_produces_new_series() {
    let new = validate_create(&settings(), &ops_ctx(), &create_input()).unwrap();
    assert_eq!(new.name, "Daily Johan");
    assert_eq!(new.channels, vec!["c1".to_owned()]);
    assert_eq!(new.state, SeriesState::Active);
}

#[test]
fn sprout_guild_starts_series_as_sprout() {
    let mut s = settings();
    s.sprout_enabled = true;
    let new = validate_create(&s, &ops_ctx(), &create_input()).unwrap();
    assert_eq!(new.state, SeriesState::Sprout);
}

#[test]
fn short_name_is_rejected() {
    let mut input = create_input();
    input.name = "x".to_owned();
    assert!(matches!(
        validate_create(&settings(), &ops_ctx(), &input),
        Err(CreateError::Validation(ValidationError::NameLength))
    ));
}

#[test]
fn unwatched_channel_is_rejected() {
    let mut input = create_input();
    input.channel_id = "nope".to_owned();
    assert!(matches!(
        validate_create(&settings(), &ops_ctx(), &input),
        Err(CreateError::Policy(PolicyViolation::ChannelNotWatched))
    ));
}

#[test]
fn role_gated_without_role_is_rejected() {
    let mut input = create_input();
    input.privacy = Privacy::RoleGated;
    assert!(matches!(
        validate_create(&settings(), &ops_ctx(), &input),
        Err(CreateError::Validation(ValidationError::MissingPrivacyRole))
    ));
}

#[test]
fn policy_violation_propagates_from_create() {
    let mut c = ops_ctx();
    c.live_series_count = 2;
    assert!(matches!(
        validate_create(&settings(), &c, &create_input()),
        Err(CreateError::Policy(PolicyViolation::MaxSeries(2)))
    ));
}

#[test]
fn assert_owner_distinguishes_creator() {
    let s = owned_series();
    assert!(assert_owner(&s, "creator").is_ok());
    assert_eq!(assert_owner(&s, "someone"), Err(Forbidden));
}

#[test]
fn update_applies_fields() {
    let mut s = owned_series();
    let input = UpdateSeriesInput {
        description: Some("new".to_owned()),
        emoji: Some("📸".to_owned()),
        privacy: Some(Privacy::CreatorOnly),
        channel_id: Some("c2".to_owned()),
        detection_mode: Some(DetectionMode::Passive),
        ..Default::default()
    };
    apply_update(&settings(), &mut s, &input).unwrap();
    assert_eq!(s.description, "new");
    assert_eq!(s.emoji, "📸");
    assert_eq!(s.privacy, Privacy::CreatorOnly);
    assert_eq!(s.channels, vec!["c2".to_owned()]);
    assert_eq!(s.detection_mode, DetectionMode::Passive);
}

#[test]
fn update_to_unwatched_channel_is_rejected() {
    let mut s = owned_series();
    let input = UpdateSeriesInput {
        channel_id: Some("elsewhere".to_owned()),
        ..Default::default()
    };
    assert!(matches!(
        apply_update(&settings(), &mut s, &input),
        Err(UpdateError::Policy(PolicyViolation::ChannelNotWatched))
    ));
}

#[test]
fn enabling_reminder_on_freeform_is_rejected() {
    let mut s = owned_series();
    s.cadence = Cadence::Freeform;
    let input = UpdateSeriesInput {
        reminder_enabled: Some(true),
        reminder_time: Some("17:30".to_owned()),
        ..Default::default()
    };
    assert!(matches!(
        apply_update(&settings(), &mut s, &input),
        Err(UpdateError::Validation(ValidationError::ReminderOnFreeform))
    ));
}

#[test]
fn enabling_reminder_without_time_is_rejected() {
    let mut s = owned_series();
    let input = UpdateSeriesInput {
        reminder_enabled: Some(true),
        ..Default::default()
    };
    assert!(matches!(
        apply_update(&settings(), &mut s, &input),
        Err(UpdateError::Validation(
            ValidationError::ReminderTimeRequired
        ))
    ));
}

#[test]
fn invalid_reminder_time_is_rejected() {
    let mut s = owned_series();
    let input = UpdateSeriesInput {
        reminder_time: Some("25:99".to_owned()),
        ..Default::default()
    };
    assert!(matches!(
        apply_update(&settings(), &mut s, &input),
        Err(UpdateError::Validation(
            ValidationError::InvalidReminderTime(_)
        ))
    ));
}

#[test]
fn enabling_reminder_with_time_succeeds() {
    let mut s = owned_series();
    let input = UpdateSeriesInput {
        reminder_enabled: Some(true),
        reminder_time: Some("09:00".to_owned()),
        reminder_dm: Some(false),
        ..Default::default()
    };
    apply_update(&settings(), &mut s, &input).unwrap();
    assert!(s.reminder_enabled);
    assert_eq!(s.reminder_time.as_deref(), Some("09:00"));
    assert!(!s.reminder_dm);
}

#[test]
fn build_context_detects_creator_role() {
    let mut s = settings();
    s.creator_role_id = Some("role-1".to_owned());
    let has = build_creation_context(0, 0, None, 0, &["role-1".to_owned()], &s);
    assert_eq!(has.has_creator_role, Some(true));
    let lacks = build_creation_context(0, 0, None, 0, &["other".to_owned()], &s);
    assert_eq!(lacks.has_creator_role, Some(false));
}

#[test]
fn account_age_from_snowflake() {
    // A known snowflake's embedded timestamp is after the Discord epoch.
    let created = account_created_unix("175928847299117063");
    assert!(created > DISCORD_EPOCH_MS / 1000);
    assert_eq!(account_created_unix("not-a-number"), 0);
}

#[test]
fn snowflake_timestamp_is_exact() {
    // (175928847299117063 >> 22) + epoch = 1462015105796 ms.
    assert_eq!(account_created_unix("175928847299117063"), 1_462_015_105);
}

#[test]
fn refused_update_leaves_the_series_untouched() {
    let mut s = owned_series();
    let before_description = s.description.clone();
    let before_emoji = s.emoji.clone();
    let input = UpdateSeriesInput {
        description: Some("new".to_owned()),
        emoji: Some("📸".to_owned()),
        channel_id: Some("elsewhere".to_owned()),
        ..Default::default()
    };
    assert!(matches!(
        apply_update(&settings(), &mut s, &input),
        Err(UpdateError::Policy(PolicyViolation::ChannelNotWatched))
    ));
    assert_eq!(s.description, before_description);
    assert_eq!(s.emoji, before_emoji);
}
