use leaf::config::{ConfigError, R2Config, Tier1Config};
use leaf::domain::{Cadence, DetectionMode, Privacy, SeriesState};
use leaf::media::{
    MediaError, MediaMeta, OrientationFix, check_content_type, check_size, count_chunk,
    orientation_fix,
    original_key, thumb_key,
};
use leaf::milestone::{Milestone, classify, render};
use leaf::stats::{SeriesStats, compute};
use leaf::wrapped::{WrappedPost, month_name, summarize};

#[test]
fn harness_works() {
    assert_eq!(2 + 2, 4);
}

#[test]
fn enums_round_trip_through_strings() {
    for c in [
        Cadence::Daily,
        Cadence::Weekdays,
        Cadence::Weekly,
        Cadence::Freeform,
    ] {
        assert_eq!(c.as_str().parse::<Cadence>().ok(), Some(c));
    }
    for p in [Privacy::Public, Privacy::RoleGated, Privacy::CreatorOnly] {
        assert_eq!(p.as_str().parse::<Privacy>().ok(), Some(p));
    }
    for s in [
        SeriesState::Sprout,
        SeriesState::Active,
        SeriesState::Revoked,
    ] {
        assert_eq!(s.as_str().parse::<SeriesState>().ok(), Some(s));
    }
    for d in [DetectionMode::ContextMenu, DetectionMode::Passive] {
        assert_eq!(d.as_str().parse::<DetectionMode>().ok(), Some(d));
    }
}

#[test]
fn unknown_enum_value_is_an_error() {
    let err = "bogus".parse::<Cadence>().err();
    assert!(err.is_some());
}

#[test]
fn unknown_enum_value_names_kind_and_value() {
    let err = "bogus".parse::<Privacy>().unwrap_err();
    assert_eq!(err.kind, "Privacy");
    assert_eq!(err.value, "bogus");
}

// --- milestones ---------------------------------------------------------

#[test]
fn classification_priority() {
    assert_eq!(classify(1), Some(Milestone::First));
    assert_eq!(classify(100), Some(Milestone::Hundred(100)));
    assert_eq!(classify(365), Some(Milestone::Years(1)));
    assert_eq!(classify(730), Some(Milestone::Years(2)));
    // 36500 is both a hundred and 100 years — years wins (more significant).
    assert_eq!(classify(36500), Some(Milestone::Years(100)));
}

#[test]
fn ordinary_days_are_not_milestones() {
    for d in [2, 7, 42, 99, 101, 364, 501] {
        assert_eq!(classify(d), None, "day {d}");
    }
    assert_eq!(classify(0), None);
    assert_eq!(classify(-5), None);
}

#[test]
fn labels_pluralize() {
    assert_eq!(Milestone::Years(1).label(), "1 year");
    assert_eq!(Milestone::Years(3).label(), "3 years");
    assert_eq!(Milestone::Hundred(500).label(), "day 500");
    assert_eq!(Milestone::First.label(), "the first post");
}

#[test]
fn default_render_mentions_everything() {
    let out = render(None, Milestone::Hundred(100), 100, "daily-sketch", "<@7>");
    assert!(out.contains("daily-sketch"));
    assert!(out.contains("Day 100"));
    assert!(out.contains("<@7>"));
}

#[test]
fn template_substitutes_all_placeholders() {
    let out = render(
        Some("{creator} hit {milestone} on {name}! ({day})"),
        Milestone::Years(1),
        365,
        "art",
        "<@7>",
    );
    assert_eq!(out, "<@7> hit 1 year on art! (365)");
}

#[test]
fn blank_template_falls_back_to_default() {
    let out = render(Some("   "), Milestone::First, 1, "art", "<@7>");
    assert!(out.contains("the first post"));
}

// --- stats --------------------------------------------------------------

fn stats(days: &[i64]) -> SeriesStats {
    compute(days, 1)
}

#[test]
fn empty_series() {
    assert_eq!(
        stats(&[]),
        SeriesStats {
            total: 0,
            current_streak: 0,
            longest_streak: 0,
            missed: 0,
            max_day: None
        }
    );
}

#[test]
fn single_day() {
    let s = stats(&[1]);
    assert_eq!(
        (s.total, s.current_streak, s.longest_streak, s.missed),
        (1, 1, 1, 0)
    );
    assert_eq!(s.max_day, Some(1));
}

#[test]
fn unbroken_run() {
    let s = stats(&[1, 2, 3, 4, 5]);
    assert_eq!(
        (s.total, s.current_streak, s.longest_streak, s.missed),
        (5, 5, 5, 0)
    );
}

#[test]
fn gap_resets_current_but_keeps_longest() {
    // 1..=4 then 7,8: longest is 4, current is 2, missed are 5 and 6.
    let s = stats(&[1, 2, 3, 4, 7, 8]);
    assert_eq!((s.current_streak, s.longest_streak, s.missed), (2, 4, 2));
}

#[test]
fn longest_run_at_the_end() {
    let s = stats(&[1, 5, 6, 7]);
    assert_eq!((s.current_streak, s.longest_streak, s.missed), (3, 3, 3));
}

#[test]
fn isolated_days_everywhere() {
    let s = stats(&[2, 4, 6, 8]);
    assert_eq!(
        (s.total, s.current_streak, s.longest_streak, s.missed),
        (4, 1, 1, 4)
    );
}

#[test]
fn start_day_offsets_missed_window() {
    // Series declared to start at day 100; days 100..=102 plus 104.
    let s = compute(&[100, 101, 102, 104], 100);
    assert_eq!(
        (s.total, s.current_streak, s.longest_streak, s.missed),
        (4, 1, 3, 1)
    );
}

#[test]
fn days_before_start_day_count_for_streaks_not_missed() {
    // Backfilled days below start_day: streaks still measure them,
    // the missed window does not.
    let s = compute(&[98, 99, 100, 101], 100);
    assert_eq!(
        (s.total, s.current_streak, s.longest_streak, s.missed),
        (4, 4, 4, 0)
    );
}

#[test]
fn multi_year_scale() {
    let days: Vec<i64> = (1..=1095).collect();
    let s = stats(&days);
    assert_eq!(
        (s.total, s.current_streak, s.longest_streak, s.missed),
        (1095, 1095, 1095, 0)
    );
    assert_eq!(s.max_day, Some(1095));
}

#[test]
fn streak_order_holds_on_an_example() {
    // current <= longest <= total, and a non-empty series has a current run.
    let s = stats(&[3, 4, 10, 11, 12, 20]);
    assert!(s.current_streak <= s.longest_streak && s.longest_streak <= s.total);
    assert!(s.current_streak >= 1);
    assert_eq!(s.missed, 14);
}

// --- media --------------------------------------------------------------

fn meta(ct: &str) -> MediaMeta {
    MediaMeta {
        guild_id: "g1".to_owned(),
        series_id: 7,
        day: 42,
        attachment_id: "att9".to_owned(),
        content_type: ct.to_owned(),
    }
}

#[test]
fn key_layout_is_stable() {
    let m = meta("image/png");
    assert_eq!(original_key(&m), "g/g1/s/7/d/42/att9");
    assert_eq!(thumb_key(&m), "g/g1/s/7/d/42/thumb/att9.webp");
}

#[test]
fn keys_render_negative_numbers() {
    let mut m = meta("image/png");
    m.series_id = -3;
    m.day = -1;
    assert_eq!(original_key(&m), "g/g1/s/-3/d/-1/att9");
}

#[test]
fn content_type_allowlist_tolerates_parameters() {
    assert!(check_content_type("image/png; charset=binary").is_ok());
    assert!(check_content_type("  video/mp4 ").is_ok());
    assert_eq!(
        check_content_type("application/pdf"),
        Err(MediaError::UnsupportedType("application/pdf".to_owned()))
    );
    assert!(check_content_type("IMAGE/PNG").is_err());
    assert!(check_content_type("").is_err());
}

#[test]
fn size_cap_reports_whole_megabytes() {
    assert_eq!(check_size(4096, 1024), Err(MediaError::TooLarge { limit_mb: 0 }));
    assert_eq!(check_size(1024, 1024), Ok(()));
    assert_eq!(
        check_size(leaf::media::DEFAULT_MAX_BYTES + 1, leaf::media::DEFAULT_MAX_BYTES),
        Err(MediaError::TooLarge { limit_mb: 100 })
    );
    assert_eq!(
        MediaError::TooLarge { limit_mb: 100 }.message(),
        "file exceeds the 100 MB limit"
    );
}

#[test]
fn multipart_above_threshold_and_video_posters() {
    assert!(!leaf::media::uses_multipart(1024, 1024));
    assert!(leaf::media::uses_multipart(1025, 1024));
    assert!(leaf::media::is_video_type("video/mp4"));
    assert!(!leaf::media::is_video_type("image/png"));
}

#[test]
fn exif_orientations_map_to_transforms() {
    assert_eq!(orientation_fix(1), OrientationFix::Keep);
    assert_eq!(orientation_fix(2), OrientationFix::FlipHorizontal);
    assert_eq!(orientation_fix(3), OrientationFix::Rotate180);
    assert_eq!(orientation_fix(6), OrientationFix::Rotate90);
    assert_eq!(orientation_fix(8), OrientationFix::Rotate270);
    assert_eq!(orientation_fix(99), OrientationFix::Keep);
}

// --- config -------------------------------------------------------------

fn sample() -> Tier1Config {
    Tier1Config {
        discord_token: "tok".to_owned(),
        client_id: "123".to_owned(),
        client_secret: "sec".to_owned(),
        public_url: "https://leaf.example.com".to_owned(),
        r2: R2Config {
            endpoint: "https://acc.r2.cloudflarestorage.com".to_owned(),
            bucket: "leaf".to_owned(),
            access_key_id: "ak".to_owned(),
            secret_access_key: "sk".to_owned(),
        },
    }
}

#[test]
fn empty_fields_rejected() {
    let mut cfg = sample();
    cfg.discord_token = "  ".to_owned();
    assert!(matches!(
        cfg.validate(),
        Err(ConfigError::EmptyField("discord_token"))
    ));

    let mut cfg = sample();
    cfg.public_url = "ftp://leaf".to_owned();
    assert!(matches!(cfg.validate(), Err(ConfigError::BadPublicUrl)));

    let mut cfg = sample();
    cfg.public_url = "http://localhost:8080".to_owned();
    assert!(cfg.validate().is_ok());
}

#[test]
fn first_empty_field_wins_and_secret_is_checked_last() {
    let mut cfg = sample();
    cfg.r2.bucket = String::new();
    cfg.r2.secret_access_key = " ".to_owned();
    assert!(matches!(cfg.validate(), Err(ConfigError::EmptyField("r2.bucket"))));
    let mut cfg = sample();
    cfg.r2.secret_access_key = "\t".to_owned();
    assert!(matches!(
        cfg.validate(),
        Err(ConfigError::EmptyField("r2.secret_access_key"))
    ));
    assert_eq!(
        ConfigError::EmptyField("client_id").message(),
        "config field `client_id` must not be empty"
    );
}

#[test]
fn debug_output_redacts_secrets() {
    let mut cfg = sample();
    cfg.discord_token = "SECRET_AAA".to_owned();
    cfg.client_secret = "SECRET_BBB".to_owned();
    cfg.r2.access_key_id = "SECRET_CCC".to_owned();
    cfg.r2.secret_access_key = "SECRET_DDD".to_owned();
    let rendered = cfg.debug_text();
    assert!(!rendered.contains("SECRET_"));
    assert!(rendered.contains("<redacted>"));
    // Non-secrets stay visible for debuggability.
    assert!(rendered.contains("leaf.example.com"));
    assert!(rendered.contains("123"));
}

#[test]
fn debug_text_matches_the_derived_shape() {
    let rendered = sample().debug_text();
    assert_eq!(
        rendered,
        "Tier1Config { discord_token: \"<redacted>\", client_id: \"123\", client_secret: \"<redacted>\", public_url: \"https://leaf.example.com\", r2: R2Config { endpoint: \"https://acc.r2.cloudflarestorage.com\", bucket: \"leaf\", access_key_id: \"<redacted>\", secret_access_key: \"<redacted>\" } }"
    );
}

// --- wrapped ------------------------------------------------------------

fn utc_noon(y: i32, m: u32, d: u32) -> i64 {
    chrono::NaiveDate::from_ymd_opt(y, m, d)
        .unwrap()
        .and_hms_opt(12, 0, 0)
        .unwrap()
        .and_utc()
        .timestamp()
}

fn post(day: i64, posted_at: i64) -> WrappedPost {
    WrappedPost { day, posted_at }
}

#[test]
fn empty_year_is_blank_but_counts_all_time() {
    let posts = [post(1, utc_noon(2024, 5, 1))];
    let w = summarize(&posts, 2025, "UTC");
    assert_eq!(w.posts_in_year, 0);
    assert_eq!(w.busiest_month, None);
    assert_eq!(w.longest_streak, 0);
    assert_eq!(w.total_all_time, 1); // the 2024 post still counts overall
    assert_eq!((w.first_day, w.last_day), (None, None));
}

#[test]
fn buckets_by_year_and_finds_busiest_month() {
    let posts = [
        post(1, utc_noon(2025, 1, 10)),
        post(2, utc_noon(2025, 3, 1)),
        post(3, utc_noon(2025, 3, 15)),
        post(4, utc_noon(2025, 3, 20)),
        post(5, utc_noon(2025, 7, 4)),
        post(99, utc_noon(2024, 12, 31)), // prior year, excluded
    ];
    let w = summarize(&posts, 2025, "UTC");
    assert_eq!(w.posts_in_year, 5);
    assert_eq!(w.busiest_month, Some((3, 3))); // March, 3 posts
    assert_eq!((w.first_day, w.last_day), (Some(1), Some(5)));
    assert_eq!(w.total_all_time, 6);
}

#[test]
fn busiest_month_breaks_ties_toward_the_earlier_month() {
    let posts = [
        post(1, utc_noon(2025, 2, 1)),
        post(2, utc_noon(2025, 2, 2)),
        post(3, utc_noon(2025, 9, 1)),
        post(4, utc_noon(2025, 9, 2)),
    ];
    let w = summarize(&posts, 2025, "UTC");
    assert_eq!(w.busiest_month, Some((2, 2))); // Feb, not Sep
}

#[test]
fn timezone_shifts_a_post_across_a_year_boundary() {
    // 2025-01-01 04:00 UTC is still 2024-12-31 in Chicago (UTC-6).
    let ts = chrono::NaiveDate::from_ymd_opt(2025, 1, 1)
        .unwrap()
        .and_hms_opt(4, 0, 0)
        .unwrap()
        .and_utc()
        .timestamp();
    let posts = [post(1, ts)];
    assert_eq!(summarize(&posts, 2025, "UTC").posts_in_year, 1);
    assert_eq!(summarize(&posts, 2024, "America/Chicago").posts_in_year, 1);
}

#[test]
fn longest_streak_within_year_only() {
    // Days 1,2,3 consecutive in-year; 10 isolated; a 2024 day 4 must not
    // bridge the 3→(4)→... run across the year boundary.
    let posts = [
        post(4, utc_noon(2024, 12, 31)),
        post(1, utc_noon(2025, 1, 1)),
        post(2, utc_noon(2025, 1, 2)),
        post(3, utc_noon(2025, 1, 3)),
        post(10, utc_noon(2025, 6, 1)),
    ];
    let w = summarize(&posts, 2025, "UTC");
    assert_eq!(w.longest_streak, 3);
}

#[test]
fn unsorted_posts_and_duplicate_days_are_handled() {
    let posts = [
        post(7, utc_noon(2025, 4, 7)),
        post(5, utc_noon(2025, 4, 5)),
        post(6, utc_noon(2025, 4, 6)),
        post(6, utc_noon(2025, 4, 6)),
        post(2, utc_noon(2025, 4, 2)),
    ];
    let w = summarize(&posts, 2025, "UTC");
    assert_eq!(w.longest_streak, 3);
    assert_eq!((w.first_day, w.last_day), (Some(2), Some(7)));
    assert_eq!(w.busiest_month, Some((4, 5)));
}

#[test]
fn month_names() {
    assert_eq!(month_name(1), "January");
    assert_eq!(month_name(12), "December");
    assert_eq!(month_name(0), "?");
    assert_eq!(month_name(13), "?");
}

#[test]
fn download_cap_trips_mid_stream() {
    assert_eq!(count_chunk(0, 1024, 2048), Ok(1024));
    assert_eq!(count_chunk(1024, 1024, 2048), Ok(2048));
    assert_eq!(count_chunk(2048, 1, 2048), Err(MediaError::TooLarge { limit_mb: 0 }));
    assert_eq!(
        count_chunk(u64::MAX - 1, 10, u64::MAX),
        Err(MediaError::TooLarge { limit_mb: u64::MAX / (1024 * 1024) })
    );
    assert_eq!(
        count_chunk(0, 5, 100 * 1024 * 1024),
        Ok(5)
    );
}

#[test]
fn recap_ignores_post_order() {
    let posts = vec![
        post(1, utc_noon(2025, 1, 10)),
        post(2, utc_noon(2025, 3, 1)),
        post(3, utc_noon(2025, 3, 2)),
        post(7, utc_noon(2025, 7, 4)),
        post(99, utc_noon(2024, 12, 31)),
    ];
    let mut reversed = posts.clone();
    reversed.reverse();
    let mut shuffled = posts.clone();
    shuffled.swap(0, 3);
    shuffled.swap(1, 4);
    let w = summarize(&posts, 2025, "UTC");
    assert_eq!(summarize(&reversed, 2025, "UTC"), w);
    assert_eq!(summarize(&shuffled, 2025, "UTC"), w);
    assert_eq!(summarize(&posts, 2025, "America/Chicago"), summarize(&reversed, 2025, "America/Chicago"));
}

#[test]
fn debug_text_is_the_same_whatever_the_secrets() {
    let a = sample();
    let mut b = sample();
    b.discord_token = "other-token".to_owned();
    b.client_secret = "other-secret".to_owned();
    b.r2.access_key_id = "other-key".to_owned();
    b.r2.secret_access_key = "other-key-secret".to_owned();
    assert_eq!(a.debug_text(), b.debug_text());
    assert!(a.debug_text().contains("<redacted>"));
    assert!(a.debug_text().contains(&a.public_url));
    assert!(a.debug_text().contains(&a.client_id));
}

#[test]
fn stats_count_absent_days_and_runs() {
    let s = compute(&[1, 2, 5, 6, 7, 9], 0);
    assert_eq!(s.missed, 4); // 0, 3, 4 and 8 have no archive
    assert_eq!(s.longest_streak, 3);
    assert_eq!(s.current_streak, 1);
    let s = compute(&[-3, 4, 5], 2);
    assert_eq!(s.missed, 2); // 2 and 3; the day before the start does not count
    assert_eq!((s.current_streak, s.longest_streak), (2, 2));
}
