use base64::engine::general_purpose::URL_SAFE_NO_PAD;
use base64::Engine as _;
use switchyard_core::{
    account_auth_path, account_file_key, active_auth_path, load_panel_state,
    panel_state_from_registry, parse_auth_bytes, switch_action, switch_begin, switch_step,
    AccountRecord, RateLimitSnapshot, RateLimitWindow, RegistryData, SwitchAction, SwitchEvent,
    SwitchPhase,
};

fn fixture_auth(email: &str, user_id: &str, account_id: &str, plan: &str) -> String {
    let claims = format!(
        "{{\"email\":\"{email}\",\"https://api.openai.com/auth\":{{\"chatgpt_account_id\":\"{account_id}\",\"chatgpt_user_id\":\"{user_id}\",\"chatgpt_plan_type\":\"{plan}\"}}}}"
    );
    let payload = URL_SAFE_NO_PAD.encode(claims.as_bytes());
    format!(
        "{{\"auth_mode\":\"chatgpt\",\"tokens\":{{\"id_token\":\"header.{payload}.signature\",\"access_token\":\"token-value\",\"refresh_token\":\"refresh-value\",\"account_id\":\"{account_id}\"}},\"last_refresh\":\"2026-04-09T12:00:00Z\"}}"
    )
}

const NOW_SECONDS: i64 = 1_775_723_221;

fn window(remaining: i32, minutes: Option<i64>, resets_at: Option<i64>) -> RateLimitWindow {
    RateLimitWindow {
        used_percent_bits: (100.0f64 - remaining as f64).to_bits(),
        remaining_estimate: remaining,
        window_minutes: minutes,
        resets_at,
        extra: Vec::new(),
    }
}

fn registry_fixture() -> RegistryData {
    RegistryData {
        active_account_key: Some("user-a::acct-a".to_string()),
        active_account_activated_at_ms: Some(1_775_723_221_000),
        accounts: vec![
            AccountRecord {
                account_key: "user-a::acct-a".to_string(),
                chatgpt_account_id: "acct-a".to_string(),
                chatgpt_user_id: "user-a".to_string(),
                email: "alpha@example.com".to_string(),
                alias: "personal".to_string(),
                plan: Some("plus".to_string()),
                created_at: 1,
                last_usage: Some(RateLimitSnapshot {
                    primary: Some(window(65, Some(300), Some(NOW_SECONDS + 3600))),
                    secondary: Some(window(45, Some(10080), Some(NOW_SECONDS + 7200))),
                    plan_type: Some("plus".to_string()),
                    ..RateLimitSnapshot::default()
                }),
                ..AccountRecord::default()
            },
            AccountRecord {
                account_key: "user-b::acct-b".to_string(),
                chatgpt_account_id: "acct-b".to_string(),
                chatgpt_user_id: "user-b".to_string(),
                email: "beta@example.com".to_string(),
                plan: Some("team".to_string()),
                created_at: 2,
                ..AccountRecord::default()
            },
        ],
        ..RegistryData::default()
    }
}

#[test]
fn account_file_key_encodes_special_keys() {
    let encoded = account_file_key("user-a::acct-a");
    assert_ne!(encoded, "user-a::acct-a");
    assert_eq!(account_file_key("simple_key"), "simple_key");
}

#[test]
fn account_file_key_examples() {
    assert_eq!(account_file_key("user-a::acct-a"), "dXNlci1hOjphY2N0LWE");
    assert_eq!(account_file_key(""), "");
    assert_eq!(account_file_key("."), "Lg");
    assert_eq!(account_file_key(".."), "Li4");
    assert_eq!(account_file_key("..."), "...");
    assert_eq!(account_file_key("a/b"), "YS9i");
    assert_eq!(account_file_key("é"), "w6k");
}

#[test]
fn load_panel_state_sorts_active_account_first() {
    let registry = registry_fixture();
    let state = load_panel_state("/tmp/codex", Some(&registry), &vec![true, false], NOW_SECONDS);
    assert!(state.has_registry);
    assert_eq!(state.accounts.len(), 2);
    assert!(state.accounts[0].is_active);
    assert_eq!(state.accounts[0].email, "alpha@example.com");
    assert_eq!(state.accounts[0].usage_5h_remaining, Some(65));
}

#[test]
fn switch_account_updates_active_auth_and_registry() {
    let home = "/tmp/codex";
    let registry = registry_fixture();
    let mut state = switch_begin(home, "user-b::acct-b", registry);
    let mut copied_to_active: Option<String> = None;
    let mut saved = false;
    loop {
        let event = match switch_action(&state) {
            SwitchAction::CheckExists { path } => {
                assert!(
                    path == active_auth_path(home)
                        || path == account_auth_path(home, "user-b::acct-b")
                );
                SwitchEvent::Exists(true)
            }
            SwitchAction::ReadRecordKey { path } => {
                assert_eq!(path, active_auth_path(home));
                let auth = parse_auth_bytes(
                    fixture_auth("alpha@example.com", "user-a", "acct-a", "plus").as_bytes(),
                )
                .unwrap();
                SwitchEvent::RecordKey(auth.record_key)
            }
            SwitchAction::Copy { from, to } => {
                if to == active_auth_path(home) {
                    copied_to_active = Some(from);
                } else {
                    assert_eq!(to, account_auth_path(home, "user-a::acct-a"));
                }
                SwitchEvent::Completed(Ok(()))
            }
            SwitchAction::ReadClock => SwitchEvent::Clock(1_800_000_000_123),
            SwitchAction::Save => {
                saved = true;
                SwitchEvent::Completed(Ok(()))
            }
            SwitchAction::Finish => break,
        };
        state = switch_step(state, event);
    }
    assert!(matches!(state.phase, SwitchPhase::Finished(Ok(()))));
    assert_eq!(copied_to_active, Some(account_auth_path(home, "user-b::acct-b")));
    assert!(saved);
    let registry = state.registry;
    let panel = panel_state_from_registry(home, &registry, &vec![true, true], NOW_SECONDS);
    let auth = parse_auth_bytes(fixture_auth("beta@example.com", "user-b", "acct-b", "team").as_bytes())
        .unwrap();

    assert_eq!(panel.active_account_key.as_deref(), Some("user-b::acct-b"));
    assert_eq!(registry.active_account_key.as_deref(), Some("user-b::acct-b"));
    assert_eq!(auth.record_key.as_deref(), Some("user-b::acct-b"));
}
