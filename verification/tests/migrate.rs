use std::hash::{Hash, Hasher};
use leaf::domain::NewMediaAttachment;
use leaf::importer::{
    DayOutcome, FetchStep, FetchedAttachment, FetchedMessage, Gap, GapReason, ImportConfig, Summary,
    build_missing, build_present, fetch_step, import_start_day, new_import_series, plan,
    render_gaps_markdown, resolve_channels, sanitize_cell,
};
use leaf::mapping::{
    guess_content_type, leaf_day, missing_attachment_from_url, missing_attachment_live,
    parse_cdn_attachment, stored_attachment,
};
use leaf::media::{MediaError, StoredMedia};
use leaf::transfer::TransferPost;

#[test]
fn leaf_day_applies_offset_and_saturates() {
    assert_eq!(leaf_day(1, 0), 1);
    assert_eq!(leaf_day(100, 5), 105);
    assert_eq!(leaf_day(10, -3), 7);
    assert_eq!(leaf_day(1, i64::MIN), i64::MIN.saturating_add(1));
    assert_eq!(leaf_day(i64::MAX, 1), i64::MAX);
    assert_eq!(leaf_day(-2, i64::MIN), i64::MIN);
}

#[test]
fn parses_real_cdn_urls() {
    let url = "https://cdn.discordapp.com/attachments/999/12345/photo.PNG?ex=a&is=b&hm=c";
    assert_eq!(
        parse_cdn_attachment(url),
        Some(("12345".to_owned(), "photo.PNG".to_owned()))
    );

    // media.discordapp.net is the same path shape.
    let url = "https://media.discordapp.net/attachments/1/2/clip.mp4";
    assert_eq!(
        parse_cdn_attachment(url),
        Some(("2".to_owned(), "clip.mp4".to_owned()))
    );
}

#[test]
fn rejects_non_cdn_or_truncated_urls() {
    assert_eq!(parse_cdn_attachment("https://example.com/foo.png"), None);
    assert_eq!(
        parse_cdn_attachment("https://cdn.discordapp.com/attachments/999/12345"),
        None
    );
    assert_eq!(parse_cdn_attachment("not a url"), None);
}

#[test]
fn cdn_parsing_edge_cases() {
    // A fragment ends the path like a query does.
    assert_eq!(
        parse_cdn_attachment("https://cdn.discordapp.com/attachments/9/8/a.gif#x"),
        Some(("8".to_owned(), "a.gif".to_owned()))
    );
    // Extra segments after the filename are ignored.
    assert_eq!(
        parse_cdn_attachment("https://cdn.discordapp.com/attachments/9/8/a.gif/more"),
        Some(("8".to_owned(), "a.gif".to_owned()))
    );
    // Empty id or filename is refused.
    assert_eq!(parse_cdn_attachment("https://x/attachments/9//a.gif"), None);
    assert_eq!(parse_cdn_attachment("https://x/attachments/9/8/"), None);
}

#[test]
fn guesses_content_types_from_extension() {
    let cases = [
        ("a.png", "image/png"),
        ("a.PNG", "image/png"),
        ("a.jpg", "image/jpeg"),
        ("a.jpeg", "image/jpeg"),
        ("a.gif", "image/gif"),
        ("a.webp", "image/webp"),
        ("a.mp4", "video/mp4"),
        ("a.webm", "video/webm"),
        ("a.mov", "video/quicktime"),
        ("a.bin", "application/octet-stream"),
        ("noext", "application/octet-stream"),
        ("", "application/octet-stream"),
    ];
    for (name, expected) in cases {
        assert_eq!(guess_content_type(name), expected, "for {name}");
    }
    assert_eq!(guess_content_type("archive.tar.QT"), "video/quicktime");
}

#[test]
fn missing_from_cdn_url_recovers_id_and_type() {
    let m = missing_attachment_from_url(
        "https://cdn.discordapp.com/attachments/9/42/pic.jpg?ex=1",
        "chan",
        "msg",
    );
    assert_eq!(m.attachment_id, "42");
    assert_eq!(m.content_type, "image/jpeg");
    assert_eq!(m.channel_id, "chan");
    assert_eq!(m.message_id, "msg");
    assert!(m.media_missing);
    assert!(m.original_key.is_none());
    assert!(m.thumb_key.is_none());
}

#[test]
fn missing_from_unparseable_url_is_deterministic() {
    let url = "https://example.com/weird";
    let a = missing_attachment_from_url(url, "c", "msg");
    let b = missing_attachment_from_url(url, "c", "msg");
    assert_eq!(a.attachment_id, b.attachment_id, "id must be stable");
    assert!(a.attachment_id.starts_with("msg-"));
    assert_eq!(a.content_type, "application/octet-stream");
    assert!(a.media_missing);
    // A different URL yields a different id.
    let c = missing_attachment_from_url("https://example.com/other", "c", "msg");
    assert_ne!(a.attachment_id, c.attachment_id);
}

#[test]
fn synthetic_id_is_sixteen_lowercase_hex_digits() {
    let id = leaf::mapping::synthetic_attachment_id("m", "https://example.com/weird");
    let (head, hex) = id.split_at(2);
    assert_eq!(head, "m-");
    assert_eq!(hex.len(), 16);
    assert!(hex.chars().all(|c| c.is_ascii_digit() || ('a'..='f').contains(&c)));
    // The hash is DefaultHasher's, not the URL itself.
    let mut h = std::collections::hash_map::DefaultHasher::new();
    "https://example.com/weird".hash(&mut h);
    assert_eq!(hex, format!("{:016x}", h.finish()));
}

#[test]
fn stored_attachment_carries_keys_and_is_present() {
    let stored = StoredMedia {
        original_key: "orig".to_owned(),
        thumb_key: "thumb".to_owned(),
        size: 10,
    };
    let m = stored_attachment("att", "c", "m", "image/png", &stored);
    assert_eq!(m.original_key.as_deref(), Some("orig"));
    assert_eq!(m.thumb_key.as_deref(), Some("thumb"));
    assert!(!m.media_missing);
}

#[test]
fn live_missing_row_keeps_reported_type() {
    let m = missing_attachment_live("a1", "c", "m", "video/mp4");
    assert_eq!(
        m,
        NewMediaAttachment {
            attachment_id: "a1".to_owned(),
            channel_id: "c".to_owned(),
            message_id: "m".to_owned(),
            content_type: "video/mp4".to_owned(),
            original_key: None,
            thumb_key: None,
            media_missing: true,
        }
    );
}

// --- the importer -------------------------------------------------------

fn tp(day: i64, message_id: &str, channel: &str, media: Vec<String>) -> TransferPost {
    TransferPost {
        day,
        message_id: message_id.to_owned(),
        channel_id: channel.to_owned(),
        user_id: "johan".to_owned(),
        timestamp: 1_000 + day,
        media,
    }
}

fn cfg() -> ImportConfig {
    ImportConfig {
        guild_id: "g1".to_owned(),
        creator_id: "johan".to_owned(),
        series_name: "Daily Johan".to_owned(),
        series_channels: Vec::new(),
        day_offset: 0,
    }
}

#[test]
fn renders_empty_and_populated_reports() {
    assert!(render_gaps_markdown("S", &[]).contains("No gaps"));

    let gaps = vec![Gap {
        day: 2,
        message_id: "m2".to_owned(),
        reason: GapReason::MessageDeleted,
        detail: "a | b".to_owned(),
    }];
    let md = render_gaps_markdown("Daily Johan", &gaps);
    assert!(md.contains("Daily Johan"));
    assert!(md.contains("message_deleted"));
    assert!(md.contains("a \\| b"), "pipes must be escaped");
    assert!(md.contains("| 2 | m2 |"));
}

#[test]
fn report_has_exact_shape() {
    let gaps = vec![Gap {
        day: 7,
        message_id: "m7".to_owned(),
        reason: GapReason::FetchDeferred,
        detail: "line\nbreak".to_owned(),
    }];
    assert_eq!(
        render_gaps_markdown("S", &gaps),
        "# leaf-migrate gaps report — S\n\n1 gap(s) need follow-up.\n\n| day | message_id | reason | detail |\n| --- | --- | --- | --- |\n| 7 | m7 | fetch_deferred | line break |\n"
    );
    assert_eq!(sanitize_cell("a|b\r\nc"), "a\\|b  c");
}

#[test]
fn gap_reason_strings_are_stable() {
    assert_eq!(GapReason::MessageDeleted.as_str(), "message_deleted");
    assert_eq!(GapReason::MediaUnfetchable.as_str(), "media_unfetchable");
    assert_eq!(GapReason::FetchDeferred.as_str(), "fetch_deferred");
    assert_eq!(GapReason::NoMediaRecovered.as_str(), "no_media_recovered");
}

#[test]
fn dry_run_plans_without_writing() {
    let source = vec![tp(1, "m1", "c1", vec!["u".to_owned()]), tp(2, "m2", "c1", vec![])];
    let summary = plan(&source, &cfg(), 0, &Vec::new());
    assert_eq!(summary.total_source, 2);
    assert_eq!(summary.imported, 2);
    assert_eq!(summary.skipped_existing, 0);
    assert_eq!(summary.series_id, 0);
    assert!(
        summary
            .gaps
            .iter()
            .any(|g| g.day == 2 && g.reason == GapReason::NoMediaRecovered)
    );
}

#[test]
fn plan_skips_existing_days_after_the_offset() {
    let mut c = cfg();
    c.day_offset = 10;
    let source = vec![tp(1, "m1", "c1", vec![]), tp(2, "m2", "c1", vec![])];
    let summary = plan(&source, &c, 5, &vec![11]);
    assert_eq!((summary.imported, summary.skipped_existing), (1, 1));
    assert_eq!(summary.gaps.len(), 1);
    assert_eq!(summary.gaps[0].day, 12);
}

#[test]
fn channels_are_explicit_or_sorted_distinct() {
    let source = vec![
        tp(1, "m1", "c2", vec![]),
        tp(2, "m2", "c10", vec![]),
        tp(3, "m3", "c2", vec![]),
        tp(4, "m4", "c1", vec![]),
    ];
    assert_eq!(resolve_channels(&source, &cfg()), vec!["c1", "c10", "c2"]);
    let mut explicit = cfg();
    explicit.series_channels = vec!["z".to_owned(), "a".to_owned()];
    assert_eq!(resolve_channels(&source, &explicit), vec!["z", "a"]);
}

#[test]
fn new_series_starts_at_the_lowest_day() {
    let mut c = cfg();
    c.day_offset = -1;
    let source = vec![tp(5, "m5", "c1", vec![]), tp(3, "m3", "c1", vec![])];
    assert_eq!(import_start_day(&source, c.day_offset), 2);
    assert_eq!(import_start_day(&[], 0), 1);
    let s = new_import_series(&source, &c);
    assert_eq!(s.start_day, 2);
    assert_eq!(s.state, leaf::domain::SeriesState::Active);
    assert_eq!(s.privacy, leaf::domain::Privacy::Public);
    assert_eq!(s.channels, vec!["c1"]);
}

#[test]
fn deleted_message_recovers_ids_from_urls() {
    let p = tp(
        2,
        "m2",
        "c1",
        vec!["https://cdn.discordapp.com/attachments/c1/2002/x.png".to_owned()],
    );
    let plan = build_missing(&p, 2);
    assert_eq!(plan.missing, 1);
    assert_eq!(plan.media[0].attachment_id, "2002");
    assert_eq!(plan.gaps[0].reason, GapReason::MessageDeleted);
    assert_eq!(plan.gaps[0].detail, "source message deleted; 1 media recorded as missing");

    let empty = build_missing(&tp(3, "m3", "c1", vec![]), 3);
    assert_eq!(empty.gaps[0].reason, GapReason::NoMediaRecovered);
    assert!(empty.media.is_empty());
}

#[test]
fn present_message_stores_or_records_each_attachment() {
    let msg = FetchedMessage {
        content: "caption one".to_owned(),
        attachments: vec![
            FetchedAttachment {
                id: "att1".to_owned(),
                content_type: "image/png".to_owned(),
                url: "u1".to_owned(),
            },
            FetchedAttachment {
                id: "att2".to_owned(),
                content_type: "image/png".to_owned(),
                url: "u2".to_owned(),
            },
        ],
    };
    let p = tp(1, "m1", "c1", vec![]);
    let outcomes = vec![
        Ok(StoredMedia {
            original_key: "k1".to_owned(),
            thumb_key: "t1".to_owned(),
            size: 5,
        }),
        Err(MediaError::Fetch("timeout".to_owned())),
    ];
    let plan = build_present(&msg, &p, 1, &outcomes);
    assert_eq!(plan.caption, "caption one");
    assert_eq!((plan.stored, plan.missing), (1, 1));
    assert_eq!(plan.media[0].original_key.as_deref(), Some("k1"));
    assert!(plan.media[1].media_missing);
    assert_eq!(plan.gaps.len(), 1);
    assert_eq!(plan.gaps[0].detail, "attachment att2: fetching media: timeout");
}

#[test]
fn present_message_without_attachments_falls_back_to_urls() {
    let msg = FetchedMessage { content: String::new(), attachments: vec![] };
    let p = tp(4, "m4", "c1", vec!["https://example.com/a".to_owned()]);
    let plan = build_present(&msg, &p, 4, &Vec::new());
    assert_eq!(plan.missing, 1);
    assert_eq!(plan.gaps[0].reason, GapReason::MediaUnfetchable);
}

#[test]
fn each_day_is_counted_once() {
    let mut s = Summary::new(9, 4);
    s.record(DayOutcome::Existing);
    s.record(DayOutcome::Deferred {
        day: 3,
        message_id: "m3".to_owned(),
        detail: "simulated transient error".to_owned(),
    });
    s.record(DayOutcome::Inserted(build_missing(&tp(2, "m2", "c1", vec!["https://e/x".to_owned()]), 2)));
    s.record(DayOutcome::Duplicate);
    assert_eq!(s.imported + s.skipped_existing + s.deferred, 4);
    assert_eq!((s.imported, s.skipped_existing, s.deferred), (1, 2, 1));
    assert_eq!(s.media_missing, 1);
    assert!(s.gaps.iter().any(|g| g.day == 3 && g.reason == GapReason::FetchDeferred));
    assert!(s.gaps.iter().any(|g| g.day == 2 && g.reason == GapReason::MessageDeleted));
}

#[test]
fn rate_limits_back_off_then_give_up() {
    assert_eq!(fetch_step(200, 0), (FetchStep::Found, 0));
    assert_eq!(fetch_step(404, 2), (FetchStep::Deleted, 2));
    assert_eq!(fetch_step(429, 0), (FetchStep::Backoff, 1));
    assert_eq!(fetch_step(429, 4), (FetchStep::Backoff, 5));
    assert_eq!(fetch_step(429, 5), (FetchStep::RetriesExhausted, 6));
    assert_eq!(fetch_step(500, 1), (FetchStep::Failed, 1));
}

#[test]
fn live_attachment_type_falls_back_to_the_filename() {
    let a = leaf::importer::fetched_attachment("1".to_owned(), "x.webm", None, "u".to_owned());
    assert_eq!(a.content_type, "video/webm");
    let b = leaf::importer::fetched_attachment("1".to_owned(), "x.webm", Some(String::new()), "u".to_owned());
    assert_eq!(b.content_type, "video/webm");
    let c = leaf::importer::fetched_attachment("1".to_owned(), "x.webm", Some("image/gif".to_owned()), "u".to_owned());
    assert_eq!(c.content_type, "image/gif");
}

#[test]
fn insert_results_become_day_outcomes() {
    let plan = || leaf::importer::DayMedia {
        caption: "c".to_owned(),
        media: vec![],
        gaps: vec![],
        stored: 1,
        missing: 0,
    };
    assert!(matches!(
        leaf::importer::insert_outcome(Ok(()), plan()),
        Ok(DayOutcome::Inserted(d)) if d.stored == 1 && d.caption == "c"
    ));
    assert!(matches!(
        leaf::importer::insert_outcome(Err(leaf::store::DbError::DuplicateDay(3)), plan()),
        Ok(DayOutcome::Duplicate)
    ));
    assert!(matches!(
        leaf::importer::insert_outcome(Err(leaf::store::DbError::Sqlx("io".into())), plan()),
        Err(leaf::store::DbError::Sqlx(_))
    ));
}

#[test]
fn built_cdn_urls_parse_back_to_their_parts() {
    for host in ["cdn.discordapp.com", "media.discordapp.net", ""] {
        for (channel, id, name) in [("999", "12345", "photo.PNG"), ("", "a", "b"), ("c", "attachment", "x.mp4")] {
            for query in ["", "ex=a&is=b", "x?y#z"] {
                let url = format!("https://{host}/attachments/{channel}/{id}/{name}?{query}");
                assert_eq!(parse_cdn_attachment(&url), Some((id.to_owned(), name.to_owned())), "{url}");
            }
        }
    }
    // The id may not be the marker word itself: the path then reads as a
    // second marker.
    assert_eq!(parse_cdn_attachment("https://cdn.discordapp.com/attachments/1/attachments/f.png?q"), None);
}

#[test]
fn replanning_after_an_import_imports_nothing() {
    let source = vec![
        tp(1, "m1", "c1", vec!["u".to_owned()]),
        tp(2, "m2", "c1", vec![]),
        tp(4, "m4", "c1", vec![]),
    ];
    let first = plan(&source, &cfg(), 7, &vec![2]);
    assert_eq!((first.imported, first.skipped_existing), (2, 1));
    let second = plan(&source, &cfg(), 7, &vec![1, 2, 4]);
    assert_eq!(second.imported, 0);
    assert_eq!(second.skipped_existing, second.total_source);
    assert!(second.gaps.is_empty());
    // A deferred day is planned again; nothing else is.
    let third = plan(&source, &cfg(), 7, &vec![1, 2]);
    assert_eq!((third.imported, third.skipped_existing), (1, 2));
}
