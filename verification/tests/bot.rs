use std::time::Duration;

use leaf::bot::{
    AUDIT_CAP, CadenceChoice, ChannelCandidate, PrivacyChoice, ReminderCommand, ReminderTarget,
    TargetError, TickStep, USER_ERROR_MESSAGE, archive_reply, archivable, audit_lines,
    audit_window, channel_text, default_day, dm_text, format_uptime, has_creator_role,
    list_line, matching_names, may_manage, parse_day_input, pick_greeting_channel, plural,
    reaction_for, recap_text, reminder_command, reminder_target, resolve_series, setup_finish,
    setup_summary, should_promote, tick_step, uptime_text,
};
use leaf::bot::{FlagStep, ImportTally, flag_step, tally_insert};
use leaf::domain::{Cadence, DetectionMode, GuildSettings, Privacy, Series, SeriesState};
use leaf::store::DbError;
use leaf::reminder::ReminderCandidate;
use leaf::wrapped::Wrapped;

#[test]
fn uptime_formatting_picks_two_largest_units() {
    assert_eq!(format_uptime(Duration::from_secs(42)), "42s");
    assert_eq!(format_uptime(Duration::from_secs(125)), "2m 5s");
    assert_eq!(format_uptime(Duration::from_secs(3 * 3600 + 240)), "3h 4m");
    assert_eq!(
        format_uptime(Duration::from_secs(2 * 86_400 + 5 * 3600 + 59)),
        "2d 5h"
    );
    assert_eq!(format_uptime(Duration::ZERO), "0s");
}

#[test]
fn uptime_keeps_exact_units() {
    assert_eq!(uptime_text(59), "59s");
    assert_eq!(uptime_text(60), "1m 0s");
    assert_eq!(uptime_text(3600), "1h 0m");
    assert_eq!(uptime_text(86_400), "1d 0h");
}

#[test]
fn user_message_reveals_no_internals() {
    // The message is static: nothing interpolated, nothing leakable.
    assert!(!USER_ERROR_MESSAGE.contains('{'));
    assert!(USER_ERROR_MESSAGE.len() < 120);
}

fn ch(id: u64, position: u16, is_text: bool, can_send: bool) -> ChannelCandidate {
    ChannelCandidate {
        id,
        position,
        is_text,
        can_send,
    }
}

#[test]
fn prefers_usable_system_channel() {
    let cands = [ch(1, 5, true, true), ch(2, 0, true, true)];
    assert_eq!(pick_greeting_channel(Some(1), &cands), Some(1));
}

#[test]
fn unusable_system_channel_falls_back_to_topmost() {
    // System channel exists but bot can't send there.
    let cands = [
        ch(1, 0, true, false),
        ch(2, 3, true, true),
        ch(3, 1, true, true),
    ];
    assert_eq!(pick_greeting_channel(Some(1), &cands), Some(3));
}

#[test]
fn ignores_non_text_and_unsendable() {
    let cands = [
        ch(1, 0, false, true), // voice-ish
        ch(2, 1, true, false), // no perms
        ch(3, 2, true, true),
    ];
    assert_eq!(pick_greeting_channel(None, &cands), Some(3));
}

#[test]
fn position_ties_break_by_id_deterministically() {
    let cands = [ch(9, 1, true, true), ch(4, 1, true, true)];
    assert_eq!(pick_greeting_channel(None, &cands), Some(4));
}

#[test]
fn nowhere_to_speak_is_none() {
    assert_eq!(pick_greeting_channel(None, &[]), None);
    let cands = [ch(1, 0, true, false)];
    assert_eq!(pick_greeting_channel(Some(1), &cands), None);
}

fn candidate(dm: bool, channels: Vec<String>) -> ReminderCandidate {
    ReminderCandidate {
        series_id: 1,
        guild_id: "g".to_owned(),
        name: "art".to_owned(),
        creator_id: "77".to_owned(),
        channels,
        cadence: Cadence::Daily,
        reminder_time: "17:30".to_owned(),
        timezone: "UTC".to_owned(),
        reminder_dm: dm,
        start_day: 1,
        max_day: Some(9),
        last_post_at: Some(0),
        last_reminder_day: None,
    }
}

#[test]
fn reminder_texts_name_series_and_day() {
    let c = candidate(true, vec!["555".to_owned()]);
    assert_eq!(
        dm_text(&c, 10),
        "🍃 Gentle nudge: **art** is waiting on Day 10. Post it in <#555> and archive to keep the streak going."
    );
    let bare = candidate(true, vec![]);
    assert_eq!(
        dm_text(&bare, 10),
        "🍃 Gentle nudge: **art** is waiting on Day 10. Post it and archive to keep the streak going."
    );
    assert_eq!(channel_text(&c, 10), "🍃 <@77> — **art** is waiting on Day 10.");
}

#[test]
fn reminders_go_to_the_creator_or_first_channel() {
    assert_eq!(reminder_target(&candidate(true, vec![])), Ok(ReminderTarget::Dm(77)));
    assert_eq!(
        reminder_target(&candidate(false, vec!["5".to_owned(), "6".to_owned()])),
        Ok(ReminderTarget::Channel(5))
    );
    assert_eq!(reminder_target(&candidate(false, vec![])), Err(TargetError::NoChannel));
    assert_eq!(
        reminder_target(&candidate(false, vec!["x".to_owned()])),
        Err(TargetError::BadId)
    );
}

#[test]
fn a_due_reminder_is_delivered_once() {
    // Last post at the epoch, now a day later past 17:30 UTC: behind.
    let now = 86_400 + 18 * 3600;
    let c = candidate(true, vec![]);
    assert_eq!(tick_step(&c, now), TickStep::Deliver { day: 10, previous: None });
    let mut marked = c.clone();
    marked.last_reminder_day = Some(10);
    assert_eq!(tick_step(&marked, now), TickStep::RecordCheck { day: Some(10) });
}

#[test]
fn plural_suffix() {
    assert_eq!(plural(1), "");
    assert_eq!(plural(0), "s");
    assert_eq!(plural(2), "s");
}

fn s(id: i64, name: &str) -> Series {
    Series {
        id,
        guild_id: "g".into(),
        creator_id: "u".into(),
        name: name.into(),
        description: String::new(),
        channels: vec![],
        cadence: Cadence::Daily,
        detection_mode: DetectionMode::ContextMenu,
        privacy: Privacy::Public,
        privacy_role_id: None,
        start_day: 1,
        reminder_enabled: false,
        reminder_time: None,
        reminder_timezone: None,
        reminder_dm: true,
        milestone_template: None,
        emoji: "🍃".into(),
        state: SeriesState::Active,
        created_at: 0,
    }
}

#[test]
fn series_name_resolution() {
    let mine = vec![s(1, "Daily Sketch"), s(2, "daily ink"), s(3, "Photos")];
    assert_eq!(resolve_series(&mine, "Daily Sketch").map(|x| x.id), Ok(1));
    assert_eq!(resolve_series(&mine, "DAILY INK").map(|x| x.id), Ok(2));
    assert_eq!(resolve_series(&mine, "pho").map(|x| x.id), Ok(3));
    assert!(resolve_series(&mine, "daily").is_err()); // ambiguous prefix
    assert!(resolve_series(&mine, "nope").is_err()); // unknown
    assert_eq!(resolve_series(&mine, "  Photos  ").map(|x| x.id), Ok(3));
}

#[test]
fn resolution_errors_explain_themselves() {
    let mine = vec![s(1, "Daily Sketch"), s(2, "daily ink"), s(3, "Photos")];
    assert_eq!(
        resolve_series(&mine, "nope").unwrap_err(),
        "🍂 You don't have a series named **nope**. Yours: Daily Sketch, daily ink, Photos"
    );
    assert_eq!(
        resolve_series(&mine, " daily ").unwrap_err(),
        "🍂 **daily** matches several of your series — type the full name."
    );
}

#[test]
fn archive_helpers() {
    assert!(archivable(&Some("image/png; q=1".to_owned())));
    assert!(!archivable(&Some("text/plain".to_owned())));
    assert!(!archivable(&None));
    assert_eq!(default_day(Some(42), Some(9), Some(1)), 42);
    assert_eq!(default_day(None, Some(9), Some(1)), 10);
    assert_eq!(default_day(None, None, Some(5)), 5);
    assert_eq!(default_day(None, None, None), 1);
    assert_eq!(parse_day_input(" 12 "), Ok(12));
    assert_eq!(parse_day_input("0"), Err("🍂 Day numbers start at 1.".to_owned()));
    assert_eq!(parse_day_input("x"), Err("🍂 `x` isn't a day number.".to_owned()));
    assert!(should_promote(SeriesState::Sprout, 3, 3));
    assert!(!should_promote(SeriesState::Sprout, 2, 3));
    assert!(!should_promote(SeriesState::Active, 9, 3));
    assert_eq!(reaction_for("📸 extra"), '📸');
    assert_eq!(reaction_for(":)"), '🍃');
    assert_eq!(reaction_for(""), '🍃');
    assert_eq!(archive_reply(5, "art", 1, false), "🍃 Day 5 of **art** archived (1 file).");
    assert_eq!(
        archive_reply(5, "art", 2, true),
        "🍃 Day 5 of **art** archived (2 files).\n🌿 **art** sprouted — it's now publicly listed!"
    );
}

#[test]
fn audit_window_and_lines() {
    assert_eq!(audit_window(None, None, 1, Some(50)), Some((1, 20)));
    assert_eq!(audit_window(None, None, 1, Some(5)), Some((1, 5)));
    assert_eq!(audit_window(None, None, 10, None), Some((10, 10)));
    assert_eq!(audit_window(Some(5), Some(3), 1, None), None);
    assert_eq!(audit_window(Some(1), Some(1000), 1, None), Some((1, AUDIT_CAP)));
    assert_eq!(audit_lines(1, 3, &vec![2]), vec!["Day 1 ❌", "Day 2 ✅", "Day 3 ❌"]);
}

#[test]
fn series_command_helpers() {
    assert_eq!(Cadence::from(CadenceChoice::Weekdays), Cadence::Weekdays);
    assert_eq!(Privacy::from(PrivacyChoice::CreatorOnly), Privacy::CreatorOnly);
    assert_eq!(has_creator_role(&None, None), None);
    assert_eq!(has_creator_role(&Some("9".to_owned()), Some(&vec![1, 9])), Some(true));
    assert_eq!(has_creator_role(&Some("9".to_owned()), None), Some(false));
    assert_eq!(has_creator_role(&Some("x".to_owned()), Some(&vec![9])), Some(false));
    let mut sprout = s(1, "art");
    sprout.state = SeriesState::Sprout;
    sprout.channels = vec!["c1".to_owned()];
    assert_eq!(list_line(&sprout, 4), "🍃 **art** 🌱 — 4 days archived, daily in <#c1>");
    assert!(may_manage("u", "u", false));
    assert!(may_manage("u", "v", true));
    assert!(!may_manage("u", "v", false));
}

#[test]
fn reminder_command_checks_in_order() {
    assert_eq!(reminder_command(false, None, None, None, Cadence::Daily), ReminderCommand::Disable);
    assert_eq!(reminder_command(true, None, None, None, Cadence::Daily), ReminderCommand::NeedTime);
    assert_eq!(
        reminder_command(true, Some("25:00".to_owned()), None, None, Cadence::Daily),
        ReminderCommand::BadTime
    );
    assert_eq!(
        reminder_command(true, Some("09:00".to_owned()), None, Some("Mars/Base".to_owned()), Cadence::Daily),
        ReminderCommand::BadZone
    );
    assert_eq!(
        reminder_command(true, Some("09:00".to_owned()), None, None, Cadence::Freeform),
        ReminderCommand::Freeform
    );
    assert_eq!(
        reminder_command(true, Some("09:00".to_owned()), Some(false), Some("Europe/Oslo".to_owned()), Cadence::Weekly),
        ReminderCommand::Enable {
            time: "09:00".to_owned(),
            timezone: Some("Europe/Oslo".to_owned()),
            dm: false
        }
    );
}

#[test]
fn setup_flow_texts() {
    let watched = vec!["1".to_owned(), "2".to_owned()];
    assert_eq!(
        setup_summary(&watched, None),
        "🍃 **leaf is set up.**\nWatched: <#1> <#2>\nLog channel: none\nAnyone can now start a series — open the leaf Activity to create one."
    );
    let existing = GuildSettings::defaults_for("g");
    let (text, saved) = setup_finish(false, &existing, &watched, &Some("9".to_owned()));
    assert!(text.contains("Log channel: <#9>"));
    let saved = saved.unwrap();
    assert!(saved.setup_complete);
    assert_eq!(saved.watched_channels, watched);
    let (text, saved) = setup_finish(false, &existing, &vec![], &None);
    assert!(saved.is_none());
    assert!(text.starts_with("Pick at least one watched channel"));
    let (text, saved) = setup_finish(true, &existing, &watched, &None);
    assert!(saved.is_none());
    assert_eq!(text, "Setup cancelled — nothing changed.");
}

#[test]
fn recap_renders_fields_or_a_gentle_note() {
    let empty = Wrapped {
        year: 2025,
        posts_in_year: 0,
        first_day: None,
        last_day: None,
        busiest_month: None,
        longest_streak: 0,
        total_all_time: 1,
    };
    let r = recap_text("art", &empty);
    assert_eq!(r.title, "🍃 art — 2025 wrapped");
    assert_eq!(
        r.description.as_deref(),
        Some("No posts in 2025 yet. The archive holds 1 day all-time. 🌱")
    );
    let full = Wrapped {
        year: 2025,
        posts_in_year: 5,
        first_day: Some(1),
        last_day: Some(5),
        busiest_month: Some((3, 3)),
        longest_streak: 2,
        total_all_time: 6,
    };
    let r = recap_text("art", &full);
    assert!(r.description.is_none());
    assert_eq!(r.fields[2], ("Busiest month".to_owned(), "March (3 posts)".to_owned()));
    assert_eq!(r.fields[3], ("Range".to_owned(), "Day 1 → Day 5".to_owned()));
    assert_eq!(r.fields[1].1, "2 days");
}

#[test]
fn autocomplete_filters_case_insensitively() {
    let names: Vec<String> = vec!["Daily Sketch".into(), "daily ink".into(), "Photos".into()];
    assert_eq!(matching_names(&names, "DAILY"), vec!["Daily Sketch", "daily ink"]);
    assert_eq!(matching_names(&names, ""), names);
    let many: Vec<String> = (0..40).map(|i| format!("s{i}")).collect();
    assert_eq!(matching_names(&many, "s").len(), 25);
}

#[test]
fn series_features_wait_for_setup() {
    let mut s = leaf::domain::GuildSettings::defaults_for("g");
    assert!(leaf::bot::usable_settings(Some(s.clone())).is_none());
    s.setup_complete = true;
    assert_eq!(leaf::bot::usable_settings(Some(s.clone())), Some(s));
    assert!(leaf::bot::usable_settings(None).is_none());
    assert!(leaf::bot::SETUP_NEEDED_MESSAGE.contains("/setup"));
}

#[test]
fn only_the_confirm_button_confirms() {
    assert_eq!(leaf::bot::confirm_outcome(Some("confirm-yes")), (true, "Confirmed."));
    assert_eq!(
        leaf::bot::confirm_outcome(Some("confirm-no")),
        (false, "Cancelled — nothing changed.")
    );
    assert_eq!(leaf::bot::confirm_outcome(None), (false, "Cancelled — nothing changed."));
}

#[test]
fn log_lines_go_to_a_valid_log_channel_only() {
    let mut s = leaf::domain::GuildSettings::defaults_for("g");
    assert_eq!(leaf::bot::log_target(&s), None);
    s.log_channel_id = Some("1234".to_owned());
    assert_eq!(leaf::bot::log_target(&s), Some(1234));
    s.log_channel_id = Some("not-a-channel".to_owned());
    assert_eq!(leaf::bot::log_target(&s), None);
}

#[test]
fn list_shows_own_series_or_everything_to_admins() {
    let mut a = s(1, "Mine");
    a.channels = vec!["c1".into()];
    let mut b = s(2, "Theirs");
    b.creator_id = "other".into();
    b.state = SeriesState::Sprout;
    b.channels = vec!["c2".into()];
    let entries = vec![(a, 12), (b, 3)];
    assert_eq!(
        leaf::bot::list_reply(&entries, "u", false),
        "🍃 **Mine** — 12 days archived, daily in <#c1>"
    );
    assert_eq!(
        leaf::bot::list_reply(&entries, "u", true),
        "🍃 **Mine** — 12 days archived, daily in <#c1>\n🍃 **Theirs** 🌱 — 3 days archived, daily in <#c2>"
    );
    assert_eq!(
        leaf::bot::list_reply(&entries, "nobody", false),
        "No series yet. `/series create` plants one."
    );
    assert_eq!(
        leaf::bot::list_reply(&Vec::new(), "u", true),
        "No series yet. `/series create` plants one."
    );
}

#[test]
fn edit_changes_only_given_options_and_checks_the_channel() {
    let mut settings = GuildSettings::defaults_for("g");
    settings.watched_channels = vec!["c1".into(), "c2".into()];
    let mut base = s(1, "Sketch");
    base.channels = vec!["c1".into()];
    let edit = leaf::bot::SeriesEdit {
        description: Some("new words".into()),
        emoji: None,
        cadence: Some(Cadence::Weekly),
        privacy: None,
        privacy_role_id: Some("r1".into()),
        channel_id: Some("c2".into()),
    };
    let n = leaf::bot::edit_series(&settings, base.clone(), edit.clone()).unwrap();
    assert_eq!(n.description, "new words");
    assert_eq!(n.emoji, "🍃");
    assert_eq!(n.cadence, Cadence::Weekly);
    assert_eq!(n.privacy, Privacy::Public);
    assert_eq!(n.privacy_role_id.as_deref(), Some("r1"));
    assert_eq!(n.channels, vec!["c2".to_owned()]);
    assert_eq!(n.name, "Sketch");

    let mut bad = edit;
    bad.channel_id = Some("c9".into());
    assert_eq!(
        leaf::bot::edit_series(&settings, base, bad).unwrap_err(),
        leaf::policy::PolicyViolation::ChannelNotWatched
    );
    assert_eq!(leaf::bot::edited_reply("Sketch"), "🍃 **Sketch** updated.");
}

#[test]
fn management_replies() {
    assert_eq!(leaf::bot::not_found_reply("Ghost"), "No series named **Ghost** here.");
    assert_eq!(
        leaf::bot::revoke_prompt("Sketch", "42"),
        "Revoke **Sketch** by <@42>? Its archive stays stored but becomes hidden and read-only."
    );
    assert_eq!(leaf::bot::revoke_log_line("Sketch", "mod"), "🗑️ series **Sketch** revoked by mod");
    assert_eq!(
        leaf::bot::name_taken_reply("Sketch"),
        "🍂 A series named **Sketch** already exists here."
    );
    assert_eq!(
        leaf::bot::policy_reply(&leaf::policy::PolicyViolation::MissingCreatorRole),
        "🍂 starting a series here requires the creator role"
    );
    assert_eq!(leaf::bot::planted_log_line("ann", "Sketch"), "🍃 ann planted series **Sketch**");
    assert!(leaf::bot::NOT_OWNER_MESSAGE.starts_with("🍂 Only the series creator"));
}

#[test]
fn reminder_replies_name_the_problem_or_the_schedule() {
    let name = "Sketch";
    let reply = |cmd: &ReminderCommand, t: Option<&str>, z: Option<&str>| {
        leaf::bot::reminder_reply(
            cmd,
            name,
            &t.map(str::to_owned),
            &z.map(str::to_owned),
            "America/Chicago",
        )
    };
    assert_eq!(reply(&ReminderCommand::Disable, None, None), "🍃 Reminders off for **Sketch**.");
    assert_eq!(
        reply(&ReminderCommand::NeedTime, None, None),
        "To enable reminders, give a `time` (24h HH:MM)."
    );
    assert_eq!(
        reply(&ReminderCommand::BadTime, Some("25:00"), None),
        "`25:00` isn't a valid 24h time — use HH:MM, e.g. 17:30."
    );
    assert_eq!(
        reply(&ReminderCommand::BadZone, Some("09:00"), Some("Mars/Base")),
        "`Mars/Base` isn't a timezone I know — pick a valid IANA name."
    );
    assert!(reply(&ReminderCommand::Freeform, None, None).starts_with("🍂 Freeform series"));
    let on = ReminderCommand::Enable { time: "09:30".into(), timezone: None, dm: true };
    assert_eq!(
        reply(&on, Some("09:30"), None),
        "🍃 Reminders on for **Sketch** at `09:30` (America/Chicago), by DM, when you're behind."
    );
    let on = ReminderCommand::Enable {
        time: "21:00".into(),
        timezone: Some("Europe/Paris".into()),
        dm: false,
    };
    assert_eq!(
        reply(&on, Some("21:00"), Some("Europe/Paris")),
        "🍃 Reminders on for **Sketch** at `21:00` (Europe/Paris), in the channel, when you're behind."
    );
}

#[test]
fn settings_show_lists_every_setting() {
    let mut s = GuildSettings::defaults_for("g");
    assert_eq!(
        leaf::bot::settings_text(&s),
        "🍃 **leaf settings**\nSetup complete: no\nWatched channels: none\nLog channel: none\nTimezone: `UTC`\nCreator role: none\nMax series per user: 3\nMin account age: 0 days\nMin membership age: 0 days\nSprout probation: off (threshold 3)"
    );
    s.setup_complete = true;
    s.watched_channels = vec!["1".into(), "2".into()];
    s.log_channel_id = Some("9".into());
    s.creator_role_id = Some("7".into());
    s.sprout_enabled = true;
    let text = leaf::bot::settings_text(&s);
    assert!(text.contains("Setup complete: yes\nWatched channels: <#1> <#2>\nLog channel: <#9>"));
    assert!(text.contains("Creator role: <@&7>"));
    assert!(text.ends_with("Sprout probation: on (threshold 3)"));
}

#[test]
fn policy_edit_changes_given_knobs_and_clearing_wins() {
    let s = GuildSettings::defaults_for("g");
    let e = leaf::bot::PolicyEdit {
        max_series_per_user: Some(5),
        min_account_age_days: None,
        min_membership_age_days: Some(7),
        sprout: Some(true),
        sprout_threshold: None,
        creator_role_id: Some("r1".into()),
        clear_creator_role: None,
    };
    let n = leaf::bot::apply_policy_edit(s.clone(), e.clone());
    assert_eq!(n.max_series_per_user, 5);
    assert_eq!(n.min_account_age_days, 0);
    assert_eq!(n.min_membership_age_days, 7);
    assert!(n.sprout_enabled);
    assert_eq!(n.sprout_threshold, 3);
    assert_eq!(n.creator_role_id.as_deref(), Some("r1"));
    let mut clear = e;
    clear.clear_creator_role = Some(true);
    assert_eq!(leaf::bot::apply_policy_edit(n, clear).creator_role_id, None);
}

#[test]
fn timezone_command_accepts_only_known_zones() {
    assert_eq!(
        leaf::bot::timezone_reply("America/Chicago"),
        Ok("🍃 Timezone set to `America/Chicago`.".to_owned())
    );
    assert_eq!(
        leaf::bot::timezone_reply("Mars/Base"),
        Err("`Mars/Base` isn't a timezone I know — pick one from the list.".to_owned())
    );
    let found = leaf::bot::tz_suggestions("chicago");
    assert_eq!(found, vec!["America/Chicago".to_owned()]);
    let many = leaf::bot::tz_suggestions("america");
    assert_eq!(many.len(), 25);
    assert!(many.iter().all(|z| z.to_ascii_lowercase().contains("america")));
    assert!(leaf::bot::tz_suggestions("no-such-zone-fragment").is_empty());
}

#[test]
fn status_messages_come_in_chunks_of_twenty() {
    let lines: Vec<String> = (1..=45).map(|d| format!("Day {d} ✅")).collect();
    let msgs = leaf::bot::audit_messages("Sketch", 45, 1, 45, &lines);
    assert_eq!(msgs.len(), 3);
    assert!(msgs[0].starts_with("**Sketch** — 45/45 archived in 1–45\nDay 1 ✅\nDay 2 ✅"));
    assert!(msgs[0].ends_with("Day 20 ✅"));
    assert!(msgs[2].ends_with("Day 41 ✅\nDay 42 ✅\nDay 43 ✅\nDay 44 ✅\nDay 45 ✅"));
    let one = leaf::bot::audit_messages("S", 0, 3, 3, &vec!["Day 3 ❌".to_owned()]);
    assert_eq!(one, vec!["**S** — 0/1 archived in 3–3\nDay 3 ❌".to_owned()]);
    assert!(leaf::bot::audit_messages("S", 0, 3, 3, &Vec::new()).is_empty());
    assert_eq!(
        leaf::bot::BAD_RANGE_MESSAGE,
        "🍂 The start day has to come before the end day."
    );
}

#[test]
fn day_embed_shows_caption_link_and_file_count() {
    let mut series = s(7, "Sketch");
    series.guild_id = "g1".into();
    let post = leaf::domain::Post {
        series_id: 7,
        day: 12,
        message_id: "m".into(),
        channel_id: "c".into(),
        caption: "hello".into(),
        posted_at: 0,
        archived_at: 0,
    };
    let e = leaf::bot::day_embed(&series, &post, 3);
    assert_eq!(e.title, "🍃 Day 12 — Sketch");
    assert_eq!(
        e.description,
        "hello\n\n[Jump to the original post](https://discord.com/channels/g1/c/m) · 3 files"
    );
    let mut bare = post;
    bare.caption = String::new();
    let e = leaf::bot::day_embed(&series, &bare, 1);
    assert_eq!(e.description, "[Jump to the original post](https://discord.com/channels/g1/c/m)");
    assert_eq!(leaf::bot::no_day_reply("Sketch", 4), "**Sketch** has no Day 4.");
    assert_eq!(leaf::bot::nothing_archived_reply("Sketch"), "**Sketch** has nothing archived yet.");
}

#[test]
fn read_commands_hide_what_the_viewer_cannot_see() {
    let roles: Vec<String> = vec![];
    let stranger = leaf::policy::Viewer { user_id: "x", role_ids: &roles, is_admin: false };
    let mut private = s(1, "Secret");
    private.privacy = Privacy::CreatorOnly;
    assert!(leaf::bot::viewable(Some(private.clone()), &stranger).is_none());
    let owner = leaf::policy::Viewer { user_id: "u", role_ids: &roles, is_admin: false };
    let (seen, ephemeral) = leaf::bot::viewable(Some(private), &owner).unwrap();
    assert_eq!(seen.id, 1);
    assert!(ephemeral);
    let (_, ephemeral) = leaf::bot::viewable(Some(s(2, "Open")), &stranger).unwrap();
    assert!(!ephemeral);
    assert!(leaf::bot::viewable(None, &owner).is_none());
}

#[test]
fn removal_prompts_and_log() {
    assert_eq!(
        leaf::bot::delete_prompt(9, "Sketch"),
        "Remove Day 9 of **Sketch**? The stored files are deleted too. This cannot be undone."
    );
    assert_eq!(leaf::bot::delete_log_line(9, "Sketch", "ann"), "🗑️ Day 9 of **Sketch** removed by ann");
    assert_eq!(leaf::bot::NOT_ARCHIVED_MESSAGE, "🍂 That message isn't in any archive.");
}

#[test]
fn export_and_import_replies() {
    assert_eq!(leaf::bot::nothing_to_export_reply("Sketch"), "**Sketch** has nothing to export yet.");
    assert_eq!(
        leaf::bot::export_reply("Sketch", 12),
        ("🍃 **Sketch** — 12 archived days.".to_owned(), "leaf-export-Sketch.json".to_owned())
    );
    assert_eq!(
        leaf::bot::import_target_missing_reply("Sketch"),
        "No series named **Sketch** here — create it in the leaf Activity first."
    );
    assert_eq!(
        leaf::bot::import_prompt("Sketch", 10, 7, 3),
        "Import into **Sketch**: 10 entries — 7 new, 3 already archived (will be skipped). Media is recorded as missing; `leaf-migrate` re-fetches the actual files. Proceed?"
    );
    let err = leaf::transfer::TransferParseError { path: "[0].day".into(), message: "bad".into() };
    assert_eq!(leaf::bot::import_parse_reply(&err), "🍂 invalid import file at `[0].day`: bad");
    assert_eq!(leaf::bot::IMPORT_TOO_LARGE_MESSAGE, "🍂 That file is over the 24MB import limit.");
}

#[test]
fn import_tally_counts_written_and_duplicate_days() {
    let t = ImportTally { imported: 0, skipped: 0 };
    let t = tally_insert(t, Ok(())).unwrap();
    let t = tally_insert(t, Err(DbError::DuplicateDay(4))).unwrap();
    let t = tally_insert(t, Ok(())).unwrap();
    assert_eq!(t, ImportTally { imported: 2, skipped: 1 });
    assert_eq!(
        tally_insert(t, Err(DbError::Sqlx("locked".into()))),
        Err(DbError::Sqlx("locked".into()))
    );
    assert_eq!(
        leaf::bot::import_done_reply("Sketch", t),
        "🍃 Import into **Sketch** done: 2 imported, 1 skipped (already archived)."
    );
    assert_eq!(leaf::bot::import_log_line(2, "Sketch"), "📥 2 days imported into **Sketch**");
}

#[test]
fn recap_zone_and_year_defaults() {
    let mut g = GuildSettings::defaults_for("g");
    g.timezone = "Europe/Paris".into();
    assert_eq!(leaf::bot::recap_zone(&Some(g.clone())), "Europe/Paris");
    g.timezone = "Mars/Base".into();
    assert_eq!(leaf::bot::recap_zone(&Some(g)), "UTC");
    assert_eq!(leaf::bot::recap_zone(&None), "UTC");

    assert_eq!(leaf::bot::recap_year(Some(2024), "UTC", 0), 2024);
    assert_eq!(leaf::bot::recap_year(Some(1_i64 << 40), "UTC", 0), 1970);
    assert_eq!(leaf::bot::recap_year(None, "UTC", 1_700_000_000), 2023);
    // 2023-12-31T23:00Z is already 2024 in Paris.
    assert_eq!(leaf::bot::recap_year(None, "Europe/Paris", 1_704_063_600), 2024);
    assert_eq!(leaf::bot::recap_year(None, "UTC", 1_704_063_600), 2023);
}

#[test]
fn setup_menus_update_their_own_field() {
    let watched = vec!["c1".to_owned()];
    let (w, l) = leaf::bot::setup_select(
        "setup-watched",
        vec!["c2".into(), "c3".into()],
        watched.clone(),
        Some("log".into()),
    );
    assert_eq!(w, vec!["c2".to_owned(), "c3".to_owned()]);
    assert_eq!(l.as_deref(), Some("log"));
    let (w, l) = leaf::bot::setup_select("setup-log", vec!["l2".into()], watched.clone(), None);
    assert_eq!(w, watched);
    assert_eq!(l.as_deref(), Some("l2"));
    let (_, l) = leaf::bot::setup_select("setup-log", vec![], watched, Some("old".into()));
    assert_eq!(l, None);
    assert!(leaf::bot::setup_cancelled("setup-cancel"));
    assert!(!leaf::bot::setup_cancelled("setup-save"));
}

#[test]
fn a_flag_resolves_only_when_raised() {
    assert_eq!(flag_step(true, true), FlagStep::Resolve);
    assert_eq!(flag_step(true, false), FlagStep::Resolve);
    assert_eq!(flag_step(false, true), FlagStep::Wait);
    assert_eq!(flag_step(false, false), FlagStep::Never);
}

#[test]
fn archiving_uses_live_series_and_explains_failures() {
    let mut gone = s(2, "Old");
    gone.state = SeriesState::Revoked;
    let mut sprout = s(3, "New");
    sprout.state = SeriesState::Sprout;
    let live = leaf::bot::live_series(vec![s(1, "A"), gone, sprout]);
    assert_eq!(live.iter().map(|x| x.id).collect::<Vec<_>>(), [1, 3]);
    assert!(leaf::bot::live_series(vec![]).is_empty());
    assert_eq!(
        leaf::bot::store_failed_reply("cat.png", &leaf::media::MediaError::TooLarge { limit_mb: 100 }),
        "🍂 Couldn't store `cat.png`: file exceeds the 100 MB limit"
    );
    assert_eq!(
        leaf::bot::race_lost_reply(12),
        "⚠️ Day 12 was archived by someone else just now."
    );
    assert!(leaf::bot::NO_SERIES_MESSAGE.contains("/series create"));
    assert!(leaf::bot::NOTHING_ARCHIVABLE_MESSAGE.starts_with("🍂"));
}

#[test]
fn dev_guild_scopes_command_registration() {
    let c = leaf::bot::bot_config("tok", Some("123456"));
    assert_eq!((c.token.as_str(), c.dev_guild), ("tok", Some(123456)));
    assert_eq!(leaf::bot::bot_config("tok", Some("abc")).dev_guild, None);
    assert_eq!(leaf::bot::bot_config("tok", None).dev_guild, None);
}

#[test]
fn short_timezone_suggestion_lists_are_complete() {
    let found = leaf::bot::tz_suggestions("KOLKATA");
    assert_eq!(found, vec!["Asia/Kolkata".to_owned()]);
    let europe_l = leaf::bot::tz_suggestions("europe/l");
    assert!(europe_l.len() < 25);
    for zone in ["Europe/Lisbon", "Europe/London", "Europe/Ljubljana", "Europe/Luxembourg"] {
        assert!(europe_l.iter().any(|z| z == zone), "{zone} missing");
    }
}
