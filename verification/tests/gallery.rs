use leaf::api_error::ApiError;
use leaf::auth::SessionKey;
use leaf::discord::{
    MemberStep, RoleEntry, UserGuild, assignable_roles, joined_unix, managed_guild_ids, member_step,
};
use leaf::domain::{Cadence, DetectionMode, Privacy, Series, SeriesState};
use leaf::gallery::{
    AuthUser, MediaLocation, MediaQuery, api_viewable, day_window, media_target, member_gate,
    store_failure, visible_series,
};
use leaf::store::DbError;

fn series(id: i64, guild: &str, creator: &str, privacy: Privacy, state: SeriesState) -> Series {
    Series {
        id,
        guild_id: guild.into(),
        creator_id: creator.into(),
        name: format!("s{id}"),
        description: String::new(),
        channels: vec!["c".into()],
        cadence: Cadence::Daily,
        detection_mode: DetectionMode::ContextMenu,
        privacy,
        privacy_role_id: if privacy == Privacy::RoleGated { Some("r".into()) } else { None },
        start_day: 1,
        reminder_enabled: false,
        reminder_time: None,
        reminder_timezone: None,
        reminder_dm: true,
        milestone_template: None,
        emoji: "🍃".into(),
        state,
        created_at: 0,
    }
}

#[test]
fn bearer_header_carries_the_session() {
    let key = SessionKey::derive("secret");
    let token = key.mint("42", 1000, 60);
    let header = format!("Bearer {token}");
    assert_eq!(AuthUser::from_header(&key, Some(&header), 1000), Ok(AuthUser { user_id: "42".to_owned() }));
    let padded = format!("Bearer   {token}  ");
    assert_eq!(AuthUser::from_header(&key, Some(&padded), 1000), Ok(AuthUser { user_id: "42".to_owned() }));
    assert_eq!(AuthUser::from_header(&key, Some(&header), 1060), Err(ApiError::Unauthorized));
    assert_eq!(AuthUser::from_header(&key, Some(&token), 1000), Err(ApiError::Unauthorized));
    assert_eq!(AuthUser::from_header(&key, Some("Basic abc"), 1000), Err(ApiError::Unauthorized));
    assert_eq!(AuthUser::from_header(&key, None, 1000), Err(ApiError::Unauthorized));
    let other = SessionKey::derive("other");
    assert_eq!(AuthUser::from_header(&other, Some(&header), 1000), Err(ApiError::Unauthorized));
}

#[test]
fn membership_gate_separates_strangers_from_failures() {
    assert_eq!(member_gate(Ok(Some(vec!["r".into()]))), Ok(vec!["r".to_owned()]));
    assert_eq!(member_gate(Ok(None)), Err(ApiError::Forbidden));
    assert_eq!(member_gate(Err("discord down".into())), Err(ApiError::Internal));
}

#[test]
fn hidden_or_foreign_series_are_not_found() {
    let roles: Vec<String> = vec![];
    let public = series(1, "g", "u", Privacy::Public, SeriesState::Active);
    assert_eq!(api_viewable(Ok(Some(public.clone())), "g", "x", &roles).unwrap().id, 1);
    // Cross-guild id: 404, never 403.
    assert_eq!(api_viewable(Ok(Some(public)), "other", "x", &roles), Err(ApiError::NotFound));
    let private = series(2, "g", "u", Privacy::CreatorOnly, SeriesState::Active);
    assert_eq!(api_viewable(Ok(Some(private.clone())), "g", "x", &roles), Err(ApiError::NotFound));
    assert_eq!(api_viewable(Ok(Some(private)), "g", "u", &roles).unwrap().id, 2);
    // API callers are never admins: revoked stays hidden.
    let revoked = series(3, "g", "u", Privacy::Public, SeriesState::Revoked);
    assert_eq!(api_viewable(Ok(Some(revoked)), "g", "u", &roles), Err(ApiError::NotFound));
    assert_eq!(api_viewable(Ok(None), "g", "u", &roles), Err(ApiError::NotFound));
    assert_eq!(
        api_viewable(Err(DbError::Sqlx("x".into())), "g", "u", &roles),
        Err(ApiError::Internal)
    );
    assert_eq!(ApiError::from(DbError::SeriesNameTaken), ApiError::Internal);
}

#[test]
fn list_hides_sprout_revoked_and_unentitled_private() {
    let roles = vec!["r".to_owned()];
    let all = vec![
        series(1, "g", "u", Privacy::Public, SeriesState::Active),
        series(2, "g", "u", Privacy::Public, SeriesState::Sprout),
        series(3, "g", "u", Privacy::Public, SeriesState::Revoked),
        series(4, "g", "u", Privacy::CreatorOnly, SeriesState::Active),
        series(5, "g", "u", Privacy::RoleGated, SeriesState::Active),
    ];
    let ids: Vec<i64> = visible_series(all.clone(), "x", &roles).iter().map(|s| s.id).collect();
    assert_eq!(ids, [1, 5]);
    let ids: Vec<i64> = visible_series(all.clone(), "x", &[]).iter().map(|s| s.id).collect();
    assert_eq!(ids, [1]);
    let ids: Vec<i64> = visible_series(all, "u", &[]).iter().map(|s| s.id).collect();
    assert_eq!(ids, [1, 2, 4, 5]);
}

#[test]
fn day_window_defaults_and_limits() {
    // Defaults: the newest 35 days, not before the start.
    assert_eq!(day_window(None, None, Some(100), 1), Some((66, 100)));
    assert_eq!(day_window(None, None, Some(10), 1), Some((1, 10)));
    assert_eq!(day_window(None, None, None, 1), None);
    assert_eq!(day_window(None, None, None, 0), Some((0, 0)));
    assert_eq!(day_window(Some(5), Some(20), Some(100), 1), Some((5, 20)));
    assert_eq!(day_window(Some(20), Some(5), None, 1), None);
    assert_eq!(day_window(Some(1), Some(367), None, 1), Some((1, 367)));
    assert_eq!(day_window(Some(1), Some(368), None, 1), None);
    assert_eq!(day_window(Some(i64::MIN), Some(i64::MAX), None, 1), None);
    assert_eq!(day_window(None, Some(i64::MIN), None, i64::MIN), Some((i64::MIN, i64::MIN)));
}

#[test]
fn signed_media_serves_original_or_thumbnail() {
    let loc = MediaLocation {
        original_key: Some("g/1/s/2/d/3/a".into()),
        thumb_key: Some("g/1/s/2/d/3/thumb/a.webp".into()),
        content_type: "image/png".into(),
    };
    assert_eq!(
        media_target(Some(loc.clone()), false),
        Ok(("g/1/s/2/d/3/a".to_owned(), "image/png".to_owned()))
    );
    assert_eq!(
        media_target(Some(loc), true),
        Ok(("g/1/s/2/d/3/thumb/a.webp".to_owned(), "image/webp".to_owned()))
    );
    let missing = MediaLocation { original_key: None, thumb_key: None, content_type: String::new() };
    assert_eq!(media_target(Some(missing), false), Err(ApiError::NotFound));
    assert_eq!(media_target(None, true), Err(ApiError::NotFound));
    assert_eq!(store_failure(true), ApiError::NotFound);
    assert_eq!(store_failure(false), ApiError::Internal);
}

#[test]
fn member_lookups_retry_rate_limits_twice() {
    assert_eq!(member_step(200, 0), MemberStep::Read);
    assert_eq!(member_step(404, 0), MemberStep::NotMember);
    assert_eq!(member_step(429, 0), MemberStep::Retry);
    assert_eq!(member_step(429, 1), MemberStep::Retry);
    assert_eq!(member_step(429, 2), MemberStep::Fail);
    assert_eq!(member_step(500, 0), MemberStep::Fail);
    assert_eq!(member_step(401, 0), MemberStep::Fail);
}

#[test]
fn join_times_read_rfc3339() {
    assert_eq!(joined_unix(&Some("2023-11-14T22:13:20+00:00".into())), Some(1_700_000_000));
    assert_eq!(joined_unix(&Some("2023-11-14T23:13:20.123+01:00".into())), Some(1_700_000_000));
    assert_eq!(joined_unix(&Some("yesterday".into())), None);
    assert_eq!(joined_unix(&None), None);
}

#[test]
fn gating_roles_exclude_everyone_and_managed() {
    let roles = vec![
        RoleEntry { id: "g1".into(), name: "@everyone".into(), managed: false },
        RoleEntry { id: "r1".into(), name: "Artists".into(), managed: false },
        RoleEntry { id: "r2".into(), name: "leaf".into(), managed: true },
        RoleEntry { id: "r3".into(), name: "Mods".into(), managed: false },
    ];
    assert_eq!(
        assignable_roles("g1", &roles),
        vec![("r1".to_owned(), "Artists".to_owned()), ("r3".to_owned(), "Mods".to_owned())]
    );
}

#[test]
fn administered_guilds_need_ownership_or_manage_guild() {
    let g = |id: &str, owner: bool, perms: &str| UserGuild {
        id: id.into(),
        owner,
        permissions: perms.into(),
    };
    let guilds = vec![
        g("a", true, "0"),
        g("b", false, "32"),
        g("c", false, "2147483647"),
        g("d", false, "31"),
        g("e", false, "garbage"),
        g("f", false, "64"),
    ];
    assert_eq!(managed_guild_ids(&guilds), vec!["a", "b", "c"]);
}

#[test]
fn any_thumb_value_selects_the_thumbnail() {
    let q = MediaQuery { exp: 10, sig: "s".into(), thumb: Some(String::new()) };
    assert!(q.wants_thumb());
    let q = MediaQuery { exp: 10, sig: "s".into(), thumb: None };
    assert!(!q.wants_thumb());
}
