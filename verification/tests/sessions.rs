//! Sessions: their life, their pages, and the tokens that stand for uids.
use chrome_devtools::session::{
    clear_sessions, daemon_page_cleanups, format_session_line, generate_session_id,
    log_removed_sessions, log_session_removed, record_session_page, session_page, session_page_created_by_daemon, session_page_url,
    session_short_id, session_target_id, set_session_target_id, unix_secs, SessionRegistry,
    SessionState, SESSION_IDLE_TTL,
};
use chrome_devtools::table::Table;
use chrome_devtools::timing::{session_idle_ttl, session_reaper_interval};

const NOW: i128 = 1_700_000_000_000_000_000;
const SECOND: i128 = 1_000_000_000;
const PID: u32 = 4242;

#[test]
fn format_session_line_renders_all_fields() {
    let state = SessionState {
        id: "sess-test".to_string(),
        created_at: NOW,
        last_used_at: NOW,
        owned: true,
        page_id: Some(7),
        page_created_by_daemon: true,
        page_url: Some("about:blank".to_string()),
        target_id: Some("TARGET1".to_string()),
        snapshot_epoch: 0,
        uid_bindings: Table::new(),
    };
    let line = format_session_line(&state);
    assert!(line.starts_with("session=sess-test "));
    assert!(line.contains(" owned=true"));
    assert!(line.contains(" created="));
    assert!(line.contains(" last_used="));
    assert!(line.contains(" target_id=TARGET1"));
    assert_eq!(
        line,
        "session=sess-test created=1700000000 last_used=1700000000 owned=true page=7 page_created_by_daemon=true page_url=about:blank target_id=TARGET1 snapshot_epoch=0"
    );
}

#[test]
fn set_page_drops_target_id_when_the_page_changes() {
    let mut registry = SessionRegistry::new();
    let session = registry.create(NOW, PID);
    registry
        .set_page(&session.id, 1, true, Some("about:blank".to_string()), NOW)
        .unwrap();
    registry.set_target_id(&session.id, Some("TARGET1".to_string()));
    assert_eq!(
        registry.get(&session.id).unwrap().target_id.as_deref(),
        Some("TARGET1")
    );

    registry
        .set_page(
            &session.id,
            1,
            true,
            Some("https://example.com/".to_string()),
            NOW,
        )
        .unwrap();
    assert_eq!(
        registry.get(&session.id).unwrap().target_id.as_deref(),
        Some("TARGET1")
    );

    registry.set_page(&session.id, 2, false, None, NOW).unwrap();
    assert_eq!(registry.get(&session.id).unwrap().target_id, None);
}

#[test]
fn clear_page_drops_target_id() {
    let mut registry = SessionRegistry::new();
    let session = registry.create(NOW, PID);
    registry
        .set_page(&session.id, 1, true, Some("about:blank".to_string()), NOW)
        .unwrap();
    registry.set_target_id(&session.id, Some("TARGET1".to_string()));
    registry.clear_page(&session.id, NOW);
    assert_eq!(registry.get(&session.id).unwrap().target_id, None);
}

#[test]
fn generate_session_id_produces_unique_ids() {
    let mut ids = std::collections::HashSet::new();
    for counter in 0..100 {
        assert!(ids.insert(generate_session_id(NOW, PID, counter)));
    }
    assert_eq!(generate_session_id(0, 0, 0), "sess-0000000000000000");
    assert_eq!(generate_session_id(1, 0, 0), "sess-9e3779b97f4a7c15");
    assert_eq!(generate_session_id(-5, 1, 0), "sess-bf58476d1ce4e5b9");
    assert_eq!(generate_session_id(0, 0, 1), "sess-94d049bb133111eb");
}

#[test]
fn session_registry_create_and_list() {
    let mut registry = SessionRegistry::new();
    let first = registry.create(NOW, PID);
    let second = registry.create(NOW + 1, PID);
    assert_ne!(first.id, second.id);
    let listed = registry.list();
    assert_eq!(listed.len(), 2);
    assert!(listed[0].created_at <= listed[1].created_at);
    assert_eq!(listed[0].id, first.id);
    let older = registry.create(NOW - 1, PID);
    assert_eq!(registry.list()[0].id, older.id);
}

#[test]
fn session_registry_close_removes_known_and_errors_on_unknown() {
    let mut registry = SessionRegistry::new();
    let state = registry.create(NOW, PID);
    assert!(registry.close(&state.id).is_ok());
    assert!(registry.list().is_empty());
    let error = registry.close("sess-missing").unwrap_err();
    assert!(error.contains("unknown session"));
}

#[test]
fn session_registry_close_rejects_owned_session() {
    let mut registry = SessionRegistry::new();
    let state = registry.create(NOW, PID);
    registry.bind(&state.id, NOW).unwrap();
    let error = registry.close(&state.id).unwrap_err();
    assert!(error.contains("session in use"));
}

#[test]
fn session_registry_bind_marks_owned_and_rejects_second_bind() {
    let mut registry = SessionRegistry::new();
    let state = registry.create(NOW, PID);
    assert!(registry.bind(&state.id, NOW).is_ok());
    assert!(registry
        .get(&state.id)
        .map(|session| session.owned)
        .unwrap_or(false));
    let error = registry.bind(&state.id, NOW).unwrap_err();
    assert!(error.contains("session in use"));
    assert_eq!(
        registry.bind("sess-missing", NOW).unwrap_err(),
        "unknown session: sess-missing"
    );
}

#[test]
fn session_registry_bind_allows_another_session_to_bind() {
    let mut registry = SessionRegistry::new();
    let first = registry.create(NOW, PID);
    let second = registry.create(NOW, PID);
    registry.bind(&first.id, NOW).unwrap();
    registry.bind(&second.id, NOW).unwrap();
    assert!(registry.get(&first.id).unwrap().owned);
    assert!(registry.get(&second.id).unwrap().owned);
}

#[test]
fn session_registry_unbind_clears_owned() {
    let mut registry = SessionRegistry::new();
    let state = registry.create(NOW, PID);
    registry.bind(&state.id, NOW).unwrap();
    registry.unbind(&state.id, NOW + 9);
    let session = registry.get(&state.id).unwrap();
    assert!(!session.owned);
    assert_eq!(session.last_used_at, NOW + 9);
}

#[test]
fn session_registry_touch_updates_last_used_at() {
    let mut registry = SessionRegistry::new();
    let state = registry.create(NOW, PID);
    let before = registry.get(&state.id).unwrap().last_used_at;
    registry.touch(&state.id, NOW + 5);
    let after = registry.get(&state.id).unwrap().last_used_at;
    assert!(after > before);
}

#[test]
fn session_registry_reap_expired_drops_only_expired_unowned_sessions() {
    let mut registry = SessionRegistry::new();
    let fresh = registry.create(NOW, PID);
    let expired_idle = registry.create(NOW, PID);
    let expired_owned = registry.create(NOW, PID);
    let stale = NOW - SESSION_IDLE_TTL as i128 - 60 * SECOND;
    registry.touch(&expired_idle.id, stale);
    registry.bind(&expired_owned.id, stale).unwrap();
    registry.reap_expired(NOW, SESSION_IDLE_TTL);
    let remaining: Vec<_> = registry
        .list()
        .into_iter()
        .map(|session| session.id)
        .collect();
    assert!(remaining.contains(&fresh.id));
    assert!(remaining.contains(&expired_owned.id));
    assert!(!remaining.contains(&expired_idle.id));
}

#[test]
fn reaping_tells_which_pages_to_close() {
    let mut registry = SessionRegistry::new();
    let opened = registry.create(NOW, PID);
    let attached = registry.create(NOW, PID);
    record_session_page(
        &mut registry,
        &opened.id,
        5,
        true,
        Some("https://a.test/".to_string()),
        NOW,
    )
    .unwrap();
    record_session_page(&mut registry, &attached.id, 6, false, None, NOW).unwrap();
    let cleanups = daemon_page_cleanups(&registry);
    assert_eq!(cleanups.len(), 1);
    assert_eq!(cleanups[0].page_id, 5);
    let reaped = registry.reap_expired(NOW + 2 * SESSION_IDLE_TTL as i128, SESSION_IDLE_TTL);
    assert_eq!(reaped.len(), 1);
    assert_eq!(reaped[0].page_id, 5);
    assert_eq!(reaped[0].page_url.as_deref(), Some("https://a.test/"));
    assert!(registry.list().is_empty());
}

#[test]
fn pages_of_older_sessions_are_closed_first() {
    let mut registry = SessionRegistry::new();
    let mut ids = Vec::new();
    // The registry is filled in another order than the sessions' age.
    for (page, age) in [(1, 20), (2, 40), (3, 10), (4, 30)] {
        let id = registry.create(NOW - age * SECOND, PID).id;
        registry.set_page(&id, page, page != 4, None, NOW).unwrap();
        ids.push(id);
    }
    let pages: Vec<u64> =
        daemon_page_cleanups(&registry).iter().map(|cleanup| cleanup.page_id).collect();
    assert_eq!(pages, vec![2, 1, 3]);
    registry.close(&ids[1]).unwrap();
    let pages: Vec<u64> =
        daemon_page_cleanups(&registry).iter().map(|cleanup| cleanup.page_id).collect();
    assert_eq!(pages, vec![1, 3]);
}

#[test]
fn sessions_that_end_are_logged() {
    let mut registry = SessionRegistry::new();
    let idle = registry.create(NOW, PID);
    let busy = registry.create(NOW + SECOND, PID);
    registry.set_page(&idle.id, 5, true, None, NOW + 3 * SECOND).unwrap();
    registry.bind(&busy.id, NOW).unwrap();
    let line = format!(
        "session_removed reason=idle_reap session={} owned=false page=5 page_created_by_daemon=true last_used=1700000003",
        idle.id
    );
    assert_eq!(log_session_removed("idle_reap", registry.get(&idle.id).unwrap()), line);
    let before = registry.list();
    assert!(log_removed_sessions("idle_reap", &before, &registry).is_empty());
    registry.reap_expired(NOW + 2 * SESSION_IDLE_TTL as i128, SESSION_IDLE_TTL);
    assert_eq!(log_removed_sessions("idle_reap", &before, &registry), vec![line]);
    let before = registry.list();
    clear_sessions(&mut registry);
    assert_eq!(
        log_removed_sessions("mcp exited", &before, &registry),
        vec![format!(
            "session_removed reason=mcp exited session={} owned=true page= page_created_by_daemon=false last_used=1700000000",
            busy.id
        )]
    );
}

#[test]
fn void_tokens_stay_void_over_a_run_of_changes() {
    let mut registry = SessionRegistry::new();
    let id = registry.create(NOW, PID).id;
    registry.set_page(&id, 4, true, None, NOW).unwrap();
    let uids = vec!["3_a".to_string()];
    let tokens = registry.record_snapshot_uids(&id, 4, &uids, NOW).unwrap();
    let token = tokens.get("3_a").unwrap().clone();
    registry.bind(&id, NOW).unwrap();
    registry.touch(&id, NOW);
    registry.set_target_id(&id, Some("T".to_string()));
    registry.set_page(&id, 4, true, Some("https://a.test/".to_string()), NOW).unwrap();
    registry.unbind(&id, NOW);
    assert_eq!(registry.translate_uid_token(&id, 4, &token).unwrap(), "3_a");
    registry.set_page(&id, 5, true, None, NOW).unwrap();
    for step in 0..3 {
        assert_eq!(registry.translate_uid_token(&id, 4, &token).unwrap_err(), "stale uid token");
        match step {
            0 => registry.set_page(&id, 4, true, None, NOW).unwrap(),
            1 => registry.clear_page(&id, NOW),
            _ => {
                registry.record_snapshot_uids(&id, 4, &uids, NOW).unwrap();
            }
        }
    }
    assert_eq!(registry.translate_uid_token(&id, 4, &token).unwrap_err(), "stale uid token");
}

#[test]
fn sessions_tell_of_their_page() {
    let mut registry = SessionRegistry::new();
    let session = registry.create(NOW, PID);
    assert_eq!(session_page(&registry, &session.id), None);
    assert_eq!(registry.page_id(&session.id), None);
    let url = Some("https://a.test/".to_string());
    record_session_page(&mut registry, &session.id, 3, true, url, NOW).unwrap();
    set_session_target_id(&mut registry, &session.id, Some("T".to_string()));
    assert_eq!(session_page(&registry, &session.id), Some(3));
    assert_eq!(registry.page_id(&session.id), Some(3));
    assert!(session_page_created_by_daemon(&registry, &session.id));
    assert_eq!(
        session_page_url(&registry, &session.id).as_deref(),
        Some("https://a.test/")
    );
    assert_eq!(
        session_target_id(&registry, &session.id).as_deref(),
        Some("T")
    );
    clear_sessions(&mut registry);
    assert!(registry.list().is_empty());
    assert_eq!(
        record_session_page(&mut registry, &session.id, 3, true, None, NOW).unwrap_err(),
        format!("unknown session: {}", session.id)
    );
}

#[test]
fn unix_secs_returns_zero_for_unix_epoch() {
    assert_eq!(unix_secs(0), 0);
    assert_eq!(unix_secs(-1), 0);
    assert_eq!(unix_secs(1_999_999_999), 1);
}

#[test]
fn tokens_lead_back_to_their_uids() {
    let mut registry = SessionRegistry::new();
    let session = registry.create(NOW, PID);
    let uids = vec!["1_a".to_string(), "1_b".to_string()];
    registry.set_page(&session.id, 4, true, None, NOW).unwrap();
    let tokens = registry
        .record_snapshot_uids(&session.id, 4, &uids, NOW)
        .unwrap();
    let short = session_short_id(&session.id);
    assert_eq!(short, &session.id["sess-".len()..]);
    let token = tokens.get("1_a").unwrap();
    assert_eq!(*token, format!("u:{short}:2:1_a"));
    assert_eq!(
        registry.translate_uid_token(&session.id, 4, token).unwrap(),
        "1_a"
    );
    assert_eq!(
        registry
            .translate_uid_token(&session.id, 5, token)
            .unwrap_err(),
        "uid token belongs to another page"
    );
    let other = registry.create(NOW, PID);
    assert_eq!(
        registry
            .translate_uid_token(&other.id, 4, token)
            .unwrap_err(),
        "uid token belongs to another session"
    );
    let newer = registry
        .record_snapshot_uids(&session.id, 4, &uids, NOW)
        .unwrap();
    assert_ne!(newer.get("1_a").unwrap(), token);
    assert_eq!(
        registry
            .translate_uid_token(&session.id, 4, token)
            .unwrap_err(),
        "stale uid token"
    );
    assert_eq!(
        registry
            .translate_uid_token(&session.id, 4, &format!("u:{short}:3:9_z"))
            .unwrap_err(),
        "unknown uid token"
    );
}

#[test]
fn moving_to_another_page_voids_tokens() {
    let mut registry = SessionRegistry::new();
    let session = registry.create(NOW, PID);
    registry.set_page(&session.id, 4, true, None, NOW).unwrap();
    let uids = vec!["1_a".to_string()];
    let tokens = registry
        .record_snapshot_uids(&session.id, 4, &uids, NOW)
        .unwrap();
    let token = tokens.get("1_a").unwrap().clone();
    registry.set_page(&session.id, 4, true, None, NOW).unwrap();
    assert!(registry.translate_uid_token(&session.id, 4, &token).is_ok());
    registry.set_page(&session.id, 5, true, None, NOW).unwrap();
    assert_eq!(
        registry
            .translate_uid_token(&session.id, 5, &token)
            .unwrap_err(),
        "stale uid token"
    );
}

#[test]
fn sessions_live_for_half_an_hour() {
    assert_eq!(session_idle_ttl(None), SESSION_IDLE_TTL);
    assert_eq!(SESSION_IDLE_TTL, 30 * 60 * SECOND as u128);
    assert_eq!(session_idle_ttl(Some("1")), SECOND as u128);
    assert_eq!(session_reaper_interval(None), 60 * SECOND as u128);
    assert_eq!(session_reaper_interval(Some("50")), 50_000_000);
}
