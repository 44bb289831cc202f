use base64::Engine;
use leaf::admin::{
    AdminClaims, AdminUser, SettingsPatch, admin_guilds, admin_redirect_uri, apply_settings,
    authorize_url, none_if_empty, pct,
};
use leaf::api_error::ApiError;
use leaf::auth::{AuthError, MediaSigner, SESSION_TTL_SECS, SessionKey};
use leaf::config::ConfigError;
use leaf::domain::{
    Cadence, DetectionMode, GuildSettings, MediaAttachment, Post, Privacy, Series, SeriesState,
};
use leaf::dto::{DayDto, DaySummaryDto, MediaDto, SeriesDto, StatsDto};
use leaf::setup::{
    MAX_ATTEMPTS, SubmitRequest, config_from, gate_code, generate_code, liveness_outcome,
    normalize_code, shape_error_field,
};

// --- session tokens -----------------------------------------------------

#[test]
fn mint_then_verify_round_trips() {
    let key = SessionKey::derive("client-secret");
    let tok = key.mint("123456789", 1000, SESSION_TTL_SECS);
    assert_eq!(key.verify(&tok, 1000).unwrap(), "123456789");
    // Still valid just before expiry, invalid at/after it.
    assert!(key.verify(&tok, 1000 + SESSION_TTL_SECS - 1).is_ok());
    assert_eq!(
        key.verify(&tok, 1000 + SESSION_TTL_SECS),
        Err(AuthError::Expired)
    );
}

#[test]
fn a_different_key_rejects_the_token() {
    let tok = SessionKey::derive("secret-a").mint("7", 0, 100);
    assert_eq!(
        SessionKey::derive("secret-b").verify(&tok, 0),
        Err(AuthError::BadSignature)
    );
}

#[test]
fn tampering_with_the_user_id_is_caught() {
    let key = SessionKey::derive("k");
    let tok = key.mint("100", 0, 100);
    let (_, sig) = tok.split_once('.').unwrap();
    // Swap the payload for a different user, keep the old signature.
    let forged = format!(
        "{}.{sig}",
        base64::engine::general_purpose::URL_SAFE_NO_PAD.encode(b"999:100")
    );
    assert_eq!(key.verify(&forged, 0), Err(AuthError::BadSignature));
}

#[test]
fn garbage_is_malformed_not_a_panic() {
    let key = SessionKey::derive("k");
    for junk in ["", "no-dot", "a.b.c", "!!.??", "."] {
        assert!(key.verify(junk, 0).is_err());
    }
    assert_eq!(key.verify("no-dot", 0), Err(AuthError::Malformed));
}

#[test]
fn user_ids_with_no_colon_conflict_resolve_via_rsplit() {
    // rsplit on ':' keeps the expiry unambiguous even for odd user ids.
    let key = SessionKey::derive("k");
    let tok = key.mint("abc:def", 0, 100);
    assert_eq!(key.verify(&tok, 0).unwrap(), "abc:def");
}

#[test]
fn token_layout_is_payload_dot_signature() {
    let key = SessionKey::derive("k");
    let tok = key.mint("42", 10, 5);
    let (payload, sig) = tok.split_once('.').unwrap();
    let engine = base64::engine::general_purpose::URL_SAFE_NO_PAD;
    assert_eq!(engine.decode(payload).unwrap(), b"42:15");
    assert_eq!(engine.decode(sig).unwrap().len(), 32);
    // An empty user id is never accepted, even with a valid signature.
    let empty = key.mint("", 0, 100);
    assert_eq!(key.verify(&empty, 0), Err(AuthError::Malformed));
}

#[test]
fn media_signatures_verify_and_expire_and_bind_to_id() {
    let key = SessionKey::derive("k");
    let sig = key.sign_media("att1", 1000);
    assert!(key.verify_media("att1", 1000, &sig, 999));
    // Expired.
    assert!(!key.verify_media("att1", 1000, &sig, 1000));
    // Signature is bound to the attachment id.
    assert!(!key.verify_media("att2", 1000, &sig, 999));
    // Garbage signature.
    assert!(!key.verify_media("att1", 1000, "not-base64!!", 999));
}

#[test]
fn media_signer_emits_signed_full_and_thumb_urls() {
    let key = SessionKey::derive("k");
    let signer = MediaSigner::new(&key, 0, 100);
    let (full, thumb) = signer.urls("att9");
    assert!(full.starts_with("/api/media/att9?exp=100&sig="));
    assert!(thumb.contains("thumb=1"));
    let sig = key.sign_media("att9", 100);
    assert_eq!(full, format!("/api/media/att9?exp=100&sig={sig}"));
    assert_eq!(thumb, format!("/api/media/att9?thumb=1&exp=100&sig={sig}"));
}

#[test]
fn auth_error_messages() {
    assert_eq!(AuthError::Malformed.message(), "malformed session token");
    assert_eq!(AuthError::Expired.message(), "session token expired");
}

// --- DTOs ---------------------------------------------------------------

fn attachment(missing: bool) -> MediaAttachment {
    MediaAttachment {
        id: 1,
        series_id: 1,
        day: 5,
        attachment_id: "att42".to_owned(),
        channel_id: "c".to_owned(),
        message_id: "m".to_owned(),
        content_type: "image/png".to_owned(),
        original_key: if missing { None } else { Some("orig".to_owned()) },
        thumb_key: if missing { None } else { Some("thumb".to_owned()) },
        media_missing: missing,
    }
}

#[test]
fn media_dto_uses_signed_proxied_paths_only() {
    let key = SessionKey::derive("k");
    let signer = MediaSigner::new(&key, 0, 100);
    let m = MediaDto::from_attachment(&attachment(false), &signer);
    assert!(m.url.starts_with("/api/media/att42?exp=100&sig="));
    assert!(m.thumb_url.contains("thumb=1"));
    assert!(!m.url.contains("discord") && !m.url.contains("r2"));
}

#[test]
fn day_dto_builds_jump_url_and_marks_missing_media() {
    let post = Post {
        series_id: 1,
        day: 5,
        message_id: "msg".to_owned(),
        channel_id: "chan".to_owned(),
        caption: "Day 5".to_owned(),
        posted_at: 1700,
        archived_at: 1701,
    };
    let key = SessionKey::derive("k");
    let signer = MediaSigner::new(&key, 0, 100);
    let dto = DayDto::build("guild9", &post, &[attachment(true)], &signer);
    assert_eq!(dto.jump_url, "https://discord.com/channels/guild9/chan/msg");
    assert!(dto.media.first().unwrap().missing);
}

fn series_with(cadence: Cadence) -> Series {
    Series {
        id: 3,
        guild_id: "g".to_owned(),
        creator_id: "u".to_owned(),
        name: "art".to_owned(),
        description: String::new(),
        channels: vec![],
        cadence,
        detection_mode: DetectionMode::ContextMenu,
        privacy: Privacy::Public,
        privacy_role_id: None,
        start_day: 1,
        reminder_enabled: false,
        reminder_time: None,
        reminder_timezone: None,
        reminder_dm: true,
        milestone_template: None,
        emoji: "🍃".to_owned(),
        state: SeriesState::Active,
        created_at: 0,
    }
}

#[test]
fn series_dto_carries_cadence_string_and_max_day() {
    let s = series_with(Cadence::Weekdays);
    let dto = SeriesDto::from_series(&s, Some(12));
    assert_eq!(dto.cadence, "weekdays");
    assert_eq!(dto.max_day, Some(12));
}

#[test]
fn day_summary_uses_the_first_thumbnail() {
    let key = SessionKey::derive("k");
    let signer = MediaSigner::new(&key, 0, 100);
    let a = attachment(false);
    let with = DaySummaryDto::build(5, Some(&a), &signer);
    assert_eq!(with.thumb_url, Some(signer.urls("att42").1));
    let without = DaySummaryDto::build(6, None, &signer);
    assert_eq!(without.thumb_url, None);
}

#[test]
fn stats_dto_copies_every_field() {
    let s = leaf::stats::compute(&[1, 2, 4], 1);
    let dto = StatsDto::from(s);
    assert_eq!(
        dto,
        StatsDto {
            total: 3,
            current_streak: 1,
            longest_streak: 2,
            missed: 1,
            max_day: Some(4)
        }
    );
}

// --- API errors and the admin panel -------------------------------------

#[test]
fn api_errors_map_to_status_and_code() {
    assert_eq!(ApiError::Unauthorized.parts(), (401, "unauthorized"));
    assert_eq!(ApiError::NotFound.parts(), (404, "not_found"));
    assert_eq!(ApiError::Coded(409, "name_taken").parts(), (409, "name_taken"));
}

#[test]
fn admins_see_only_their_guilds() {
    let admin = AdminUser(AdminClaims {
        user_id: "u".to_owned(),
        guild_ids: vec!["g1".to_owned(), "g2".to_owned()],
    });
    assert_eq!(admin.require_guild("g2"), Ok(()));
    assert_eq!(admin.require_guild("g3"), Err(ApiError::NotFound));
    assert_eq!(
        admin_guilds(&vec!["a".to_owned(), "b".to_owned()], &vec![false, true]),
        Ok(vec!["b".to_owned()])
    );
    assert_eq!(admin_guilds(&vec!["a".to_owned()], &vec![false]), Err(ApiError::Forbidden));
}

#[test]
fn redirect_and_authorize_urls() {
    assert_eq!(
        admin_redirect_uri("https://leaf.example.com//"),
        "https://leaf.example.com/admin/callback"
    );
    assert_eq!(pct("a b/ü~"), "a%20b%2F%C3%BC~");
    assert_eq!(
        authorize_url("123", "https://x/cb", "s.t"),
        "https://discord.com/oauth2/authorize?response_type=code&client_id=123&scope=identify%20guilds&redirect_uri=https%3A%2F%2Fx%2Fcb&state=s.t&prompt=none"
    );
}

#[test]
fn settings_patch_applies_and_clears() {
    let mut s = GuildSettings::defaults_for("g");
    s.creator_role_id = Some("r".to_owned());
    apply_settings(
        &mut s,
        SettingsPatch {
            timezone: Some("Europe/Oslo".to_owned()),
            creator_role_id: Some(String::new()),
            log_channel_id: Some("log".to_owned()),
            max_series_per_user: None,
            min_account_age_days: Some(30),
            min_membership_age_days: None,
            sprout_enabled: Some(true),
            sprout_threshold: None,
        },
    );
    assert_eq!(s.timezone, "Europe/Oslo");
    assert_eq!(s.creator_role_id, None);
    assert_eq!(s.log_channel_id.as_deref(), Some("log"));
    assert_eq!(s.max_series_per_user, 3);
    assert_eq!(s.min_account_age_days, 30);
    assert!(s.sprout_enabled);
    assert_eq!(none_if_empty(String::new()), None);
    assert_eq!(none_if_empty("x".to_owned()), Some("x".to_owned()));
}

#[test]
fn series_patch_rejects_unknown_privacy() {
    let mut s = series_with(Cadence::Daily);
    let bad = leaf::admin::SeriesPatch {
        privacy: Some("secret".to_owned()),
        privacy_role_id: None,
        state: Some("revoked".to_owned()),
    };
    assert_eq!(leaf::admin::patch_series_row(&mut s, &bad), Err(ApiError::BadRequest));
    assert_eq!(s.privacy, Privacy::Public);
    let good = leaf::admin::SeriesPatch {
        privacy: Some("role_gated".to_owned()),
        privacy_role_id: Some("vip".to_owned()),
        state: Some("revoked".to_owned()),
    };
    assert_eq!(leaf::admin::patch_series_row(&mut s, &good), Ok(true));
    assert_eq!(s.privacy, Privacy::RoleGated);
    assert_eq!(s.privacy_role_id.as_deref(), Some("vip"));
    assert_eq!(leaf::admin::patch_series_state(&good), Some(Ok(SeriesState::Revoked)));
}

// --- setup mode ---------------------------------------------------------

#[test]
fn generated_codes_have_expected_shape() {
    let alphabet = leaf::setup::CODE_ALPHABET;
    for _ in 0..100 {
        let code = generate_code();
        assert_eq!(code.len(), 9);
        assert!(
            code.chars()
                .all(|c| c == '-' || alphabet.contains(c))
        );
        assert!(!code.contains('0') && !code.contains('O'));
    }
}

#[test]
fn codes_normalize_for_comparison() {
    assert_eq!(normalize_code("  abcd-efgh "), "ABCDEFGH");
    assert_eq!(normalize_code("a-b-c"), "ABC");
}

#[test]
fn wrong_codes_exhaust_the_shared_budget() {
    let mut attempts = Some(0);
    for i in 0..MAX_ATTEMPTS {
        let (status, resp) = gate_code(&mut attempts, "ABCDEFGH", "WRONG-CODE").unwrap_err();
        assert_eq!(status, 401);
        assert_eq!(
            resp.errors[0].message,
            format!("wrong code ({} attempts left)", MAX_ATTEMPTS - i - 1)
        );
    }
    // Budget exhausted: the right code is refused too.
    let (status, _) = gate_code(&mut attempts, "ABCDEFGH", "abcd-efgh").unwrap_err();
    assert_eq!(status, 429);
}

#[test]
fn right_code_passes_and_completion_closes_the_flow() {
    let mut attempts = Some(3);
    assert!(gate_code(&mut attempts, "ABCDEFGH", "abcd-efgh").is_ok());
    assert_eq!(attempts, Some(3));
    let (status, resp) = leaf::setup::complete(&mut attempts);
    assert_eq!(status, 200);
    assert!(resp.ok);
    let (status, resp) = gate_code(&mut attempts, "ABCDEFGH", "abcd-efgh").unwrap_err();
    assert_eq!(status, 410);
    assert_eq!(resp.errors[0].message, "setup already completed");
}

fn request() -> SubmitRequest {
    SubmitRequest {
        setup_code: "x".to_owned(),
        discord_token: " tok ".to_owned(),
        client_id: "123".to_owned(),
        client_secret: "sec".to_owned(),
        public_url: " https://leaf.example.com/ ".to_owned(),
        r2_endpoint: "https://acc.r2.cloudflarestorage.com".to_owned(),
        r2_bucket: "leaf".to_owned(),
        r2_access_key_id: "ak".to_owned(),
        r2_secret_access_key: "sk".to_owned(),
    }
}

#[test]
fn submission_is_trimmed_and_shape_checked() {
    let cfg = config_from(&request());
    assert_eq!(cfg.discord_token, "tok");
    assert_eq!(cfg.public_url, "https://leaf.example.com");
    let mut req = request();
    req.r2_bucket = "  ".to_owned();
    let (status, resp) = match leaf::setup::shape_check(&req) {
        Err(e) => e,
        Ok(_) => panic!("a blank bucket must be refused"),
    };
    assert_eq!(status, 422);
    assert_eq!(resp.errors[0].field, "r2_bucket");
    assert_eq!(shape_error_field(&ConfigError::BadPublicUrl), "public_url");
}

#[test]
fn liveness_failures_become_field_errors() {
    assert!(liveness_outcome(Ok(()), Ok(())).is_none());
    let (status, resp) =
        liveness_outcome(Err("bad token".to_owned()), Err("bucket unreachable".to_owned())).unwrap();
    assert_eq!(status, 422);
    assert_eq!(resp.errors.len(), 2);
    assert_eq!(resp.errors[0].field, "discord_token");
    assert_eq!(resp.errors[1].field, "r2_endpoint");
}

#[test]
fn credential_check_verdicts_name_the_service_not_the_secret() {
    assert_eq!(leaf::setup::bot_token_verdict(200, "200 OK"), Ok(()));
    assert_eq!(
        leaf::setup::bot_token_verdict(401, "401 Unauthorized"),
        Err("Discord rejected the bot token".to_owned())
    );
    assert_eq!(
        leaf::setup::bot_token_verdict(403, "403 Forbidden"),
        Err("Discord returned 403 Forbidden for the bot token check".to_owned())
    );
    assert_eq!(leaf::setup::client_pair_verdict(true), Ok(()));
    assert_eq!(
        leaf::setup::client_pair_verdict(false),
        Err("Discord rejected the client ID / client secret pair".to_owned())
    );
}

#[test]
fn media_signature_is_lowercase_hex() {
    let key = SessionKey::derive("k");
    let sig = key.sign_media("att1", 1000);
    assert_eq!(sig.len(), 64);
    assert!(sig.chars().all(|c| c.is_ascii_digit() || ('a'..='f').contains(&c)));
    assert!(key.verify_media("att1", 1000, &sig.to_uppercase(), 999));
    assert!(!key.verify_media("att1", 1000, &sig[..63], 999));
}

#[test]
fn counts_past_the_budget_stay_locked() {
    let mut attempts = Some(MAX_ATTEMPTS + 5);
    let (status, resp) = gate_code(&mut attempts, "ABCDEFGH", "abcd-efgh").unwrap_err();
    assert_eq!(status, 429);
    assert_eq!(resp.errors[0].message, "too many attempts; restart leaf to get a new code");
    assert_eq!(attempts, Some(MAX_ATTEMPTS + 5));
}

#[test]
fn setup_code_spells_its_draws() {
    assert_eq!(leaf::setup::code_from_draws(&[0, 1, 2, 3, 28, 29, 30, 31]), "ABCD-6789");
    assert_eq!(leaf::setup::code_from_draws(&[8, 8, 8, 8, 13, 13, 13, 13]), "JJJJ-PPPP");
}
