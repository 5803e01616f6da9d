use base64::engine::general_purpose::URL_SAFE_NO_PAD;
use base64::Engine as _;
use switchyard_core::{
    account_auth_path, account_summary, accounts_dir, active_auth_path, apply_switch,
    decode_jwt_payload, default_schema_version, default_threshold_5h, default_threshold_weekly,
    default_true, display_name, is_relevant_path, load_panel_state, panel_state_from_registry,
    parse_auth_bytes, registry_path, remaining_percent, resolve_codex_home,
    resolve_window, set_auto_switch_enabled, set_usage_api_enabled, string_field, switch_action,
    switch_begin, switch_step, temp_path_for, AccountRecord, ApiConfig,
    AutoSwitchConfig, JsonValue, RateLimitSnapshot, RateLimitWindow, RegistryData, SwitchAction,
    SwitchEvent, SwitchPhase, SwitchyardError,
};

fn text(s: &str) -> JsonValue {
    JsonValue::Str(s.to_string())
}

fn object(entries: Vec<(&str, JsonValue)>) -> JsonValue {
    JsonValue::Object(entries.into_iter().map(|(k, v)| (k.to_string(), v)).collect())
}

fn window(remaining: i32, minutes: Option<i64>, resets_at: Option<i64>) -> RateLimitWindow {
    RateLimitWindow {
        used_percent_bits: 0,
        remaining_estimate: remaining,
        window_minutes: minutes,
        resets_at,
        extra: Vec::new(),
    }
}

fn account(key: &str, email: &str) -> AccountRecord {
    AccountRecord {
        account_key: key.to_string(),
        email: email.to_string(),
        ..AccountRecord::default()
    }
}

fn token_with_payload(payload: &str) -> String {
    format!("h.{}.s", URL_SAFE_NO_PAD.encode(payload.as_bytes()))
}

/// An `auth.json` with tokens whose identity token carries `claims`.
fn tokens_auth(claims: &str, account_id: Option<&str>) -> String {
    let id = match account_id {
        Some(a) => format!(",\"account_id\":\"{a}\""),
        None => String::new(),
    };
    format!(
        "{{\"tokens\":{{\"id_token\":\"{}\",\"access_token\":\"at\"{id}}},\"last_refresh\":\"when\"}}",
        token_with_payload(claims)
    )
}

#[test]
fn paths_under_home() {
    assert_eq!(accounts_dir("/h"), "/h/accounts");
    assert_eq!(accounts_dir("/h/"), "/h/accounts");
    assert_eq!(accounts_dir(""), "accounts");
    assert_eq!(registry_path("/h"), "/h/accounts/registry.json");
    assert_eq!(active_auth_path("/h"), "/h/auth.json");
    assert_eq!(account_auth_path("/h", "simple"), "/h/accounts/simple.auth.json");
    assert_eq!(
        account_auth_path("/h", "user-a::acct-a"),
        "/h/accounts/dXNlci1hOjphY2N0LWE.auth.json"
    );
    assert_eq!(account_auth_path("/h", ""), "/h/accounts/.auth.json");
}

#[test]
fn temp_paths() {
    assert_eq!(
        temp_path_for("/h/accounts/registry.json", 123),
        "/h/accounts/.registry.json.123.tmp"
    );
    assert_eq!(temp_path_for("auth.json", 7), ".auth.json.7.tmp");
    assert_eq!(temp_path_for("/", 5), "/.switchyard.tmp.5.tmp");
    assert_eq!(temp_path_for("", 5), ".switchyard.tmp.5.tmp");
    assert_eq!(temp_path_for("a/b/", 7), "a/.b.7.tmp");
    assert_eq!(temp_path_for("a/b/.", 7), "a/.b.7.tmp");
    assert_eq!(temp_path_for("a/..", 1), "a/../.switchyard.tmp.1.tmp");
    assert_eq!(temp_path_for("/x", -42), "/.x.-42.tmp");
    assert_eq!(temp_path_for("./a", 0), "./.a.0.tmp");
}

#[test]
fn relevant_paths() {
    assert!(is_relevant_path("/x/registry.json"));
    assert!(is_relevant_path("/x/auth.json"));
    assert!(is_relevant_path("auth.json"));
    assert!(is_relevant_path("/x/auth.json/"));
    assert!(!is_relevant_path("/x/other.json"));
    assert!(!is_relevant_path("/x/auth.json.tmp"));
    assert!(!is_relevant_path("/"));
    assert!(is_relevant_path(&registry_path("/any/home")));
    assert!(is_relevant_path(&active_auth_path("")));
}

#[test]
fn codex_home_resolution() {
    assert_eq!(resolve_codex_home(Some("/custom"), Some("/home/u")).unwrap(), "/custom");
    assert_eq!(resolve_codex_home(Some(" /spaced "), None).unwrap(), " /spaced ");
    assert_eq!(resolve_codex_home(Some(" \t\n"), Some("/home/u")).unwrap(), "/home/u/.codex");
    assert_eq!(resolve_codex_home(None, Some("/home/u")).unwrap(), "/home/u/.codex");
    assert!(matches!(resolve_codex_home(Some(""), None), Err(SwitchyardError::HomeDirMissing)));
    assert!(matches!(resolve_codex_home(None, None), Err(SwitchyardError::HomeDirMissing)));
}

#[test]
fn defaults() {
    assert_eq!(default_schema_version(), 3);
    assert_eq!(default_threshold_5h(), 10);
    assert_eq!(default_threshold_weekly(), 5);
    assert!(default_true());
    let r = RegistryData::default();
    assert_eq!(r.schema_version, 3);
    assert!(r.active_account_key.is_none());
    assert!(!r.auto_switch.enabled);
    assert_eq!(r.auto_switch.threshold_5h_percent, 10);
    assert_eq!(r.auto_switch.threshold_weekly_percent, 5);
    assert!(r.api.usage && r.api.account);
    assert!(r.accounts.is_empty());
    let a = AutoSwitchConfig::default();
    assert!(!a.enabled);
    let p = ApiConfig::default();
    assert!(p.usage && p.account);
    assert_eq!(RateLimitWindow::default().remaining_estimate, 100);
}

#[test]
fn display_names() {
    let mut a = account("k", "a@x.com");
    assert_eq!(display_name(&a), "a@x.com");
    a.alias = "  work \t".to_string();
    assert_eq!(display_name(&a), "a@x.com \u{b7} work");
    a.alias = "\u{3000}".to_string();
    a.account_name = Some(" Team Name ".to_string());
    assert_eq!(display_name(&a), "a@x.com \u{b7} Team Name");
    a.account_name = Some("   ".to_string());
    assert_eq!(display_name(&a), "a@x.com");
}

#[test]
fn remaining_and_windows() {
    assert_eq!(remaining_percent(&window(40, None, Some(100)), 100), 100);
    assert_eq!(remaining_percent(&window(40, None, Some(101)), 100), 40);
    assert_eq!(remaining_percent(&window(-7, None, None), 100), 0);
    assert_eq!(remaining_percent(&window(130, None, None), 100), 100);

    let snap = RateLimitSnapshot {
        primary: Some(window(1, Some(10080), None)),
        secondary: Some(window(2, Some(300), None)),
        ..RateLimitSnapshot::default()
    };
    assert_eq!(resolve_window(&snap, 300, true).unwrap().remaining_estimate, 2);
    assert_eq!(resolve_window(&snap, 10080, false).unwrap().remaining_estimate, 1);
    let other = RateLimitSnapshot {
        primary: Some(window(1, None, None)),
        secondary: Some(window(2, Some(60), None)),
        ..RateLimitSnapshot::default()
    };
    assert_eq!(resolve_window(&other, 300, true).unwrap().remaining_estimate, 1);
    assert_eq!(resolve_window(&other, 10080, false).unwrap().remaining_estimate, 2);
    assert!(resolve_window(&RateLimitSnapshot::default(), 300, true).is_none());
}

#[test]
fn summary_of_an_account() {
    let mut a = account("k1", "a@x.com");
    a.last_usage = Some(RateLimitSnapshot {
        primary: Some(window(65, Some(300), None)),
        plan_type: Some("pro".to_string()),
        ..RateLimitSnapshot::default()
    });
    a.last_used_at = Some(9);
    let s = account_summary(Some("k1"), &a, true, 0);
    assert!(s.is_active);
    assert_eq!(s.plan.as_deref(), Some("pro"));
    assert_eq!(s.usage_5h_remaining, Some(65));
    assert_eq!(s.usage_weekly_remaining, None);
    assert!(s.has_auth_snapshot);
    assert_eq!(s.last_used_at, Some(9));
    let t = account_summary(Some("other"), &a, false, 0);
    assert!(!t.is_active);
    assert!(!t.has_auth_snapshot);
}

#[test]
fn panel_sorting_is_stable() {
    let mut r = RegistryData::default();
    r.accounts = vec![
        account("k1", "c@x.com"),
        account("k2", "a@x.com"),
        account("k3", "b@x.com"),
        account("k4", "a@x.com"),
        account("k5", "z@x.com"),
    ];
    r.active_account_key = Some("k5".to_string());
    let p = panel_state_from_registry("/h", &r, &vec![false, true], 0);
    let keys: Vec<&str> = p.accounts.iter().map(|a| a.account_key.as_str()).collect();
    assert_eq!(keys, vec!["k5", "k2", "k4", "k3", "k1"]);
    assert!(p.accounts[1].has_auth_snapshot);
    assert!(!p.accounts[0].has_auth_snapshot);
    assert_eq!(p.registry_path, "/h/accounts/registry.json");
}

#[test]
fn panel_without_registry() {
    let p = load_panel_state("/h", None, &vec![], 0);
    assert!(!p.has_registry);
    assert!(p.active_account_key.is_none());
    assert!(!p.auto_switch_enabled);
    assert!(p.api_usage_enabled);
    assert!(p.accounts.is_empty());
    assert_eq!(p.codex_home, "/h");
}

#[test]
fn settings_switches() {
    let mut r = RegistryData::default();
    set_auto_switch_enabled(&mut r, true);
    assert!(r.auto_switch.enabled);
    set_usage_api_enabled(&mut r, false);
    assert!(!r.api.usage && !r.api.account);
    set_usage_api_enabled(&mut r, true);
    assert!(r.api.usage && r.api.account);
}

#[test]
fn apply_switch_updates_first_match() {
    let mut r = RegistryData::default();
    r.accounts = vec![account("k", "a"), account("k", "b")];
    apply_switch(&mut r, "k", 5_999);
    assert_eq!(r.active_account_key.as_deref(), Some("k"));
    assert_eq!(r.active_account_activated_at_ms, Some(5_999));
    assert_eq!(r.accounts[0].last_used_at, Some(5));
    assert_eq!(r.accounts[1].last_used_at, None);
    apply_switch(&mut r, "k", -1_500);
    assert_eq!(r.accounts[0].last_used_at, Some(-1));
    apply_switch(&mut r, "none", 1_000);
    assert_eq!(r.active_account_key.as_deref(), Some("none"));
}

#[test]
fn json_lookups() {
    let v = object(vec![("a", text("")), ("b", text("x")), ("b", text("y")), ("n", JsonValue::Null)]);
    assert_eq!(string_field(&v, "a"), None);
    assert_eq!(string_field(&v, "b").as_deref(), Some("x"));
    assert_eq!(string_field(&v, "n"), None);
    assert_eq!(string_field(&text("s"), "a"), None);
}

#[test]
fn jwt_payloads() {
    assert_eq!(decode_jwt_payload("h.aGVsbG8.s").unwrap(), b"hello".to_vec());
    assert_eq!(decode_jwt_payload("h.aGVsbG8.s.more").unwrap(), b"hello".to_vec());
    assert_eq!(decode_jwt_payload("..").unwrap(), Vec::<u8>::new());
    assert!(matches!(decode_jwt_payload("h.aGVsbG8"), Err(SwitchyardError::InvalidJwt)));
    assert!(matches!(decode_jwt_payload("nodots"), Err(SwitchyardError::InvalidJwt)));
    assert!(matches!(decode_jwt_payload("h.aGVsbG8=.s"), Err(SwitchyardError::InvalidJwt)));
    assert!(matches!(decode_jwt_payload("h.aGVsbG9.s"), Err(SwitchyardError::InvalidJwt)));
    assert!(matches!(decode_jwt_payload("h.a.s"), Err(SwitchyardError::InvalidJwt)));
}

#[test]
fn api_key_auth() {
    let info = parse_auth_bytes(br#"{"OPENAI_API_KEY":"sk-1","last_refresh":"t"}"#).unwrap();
    assert_eq!(info.auth_mode, "apikey");
    assert_eq!(info.access_token.as_deref(), Some("sk-1"));
    assert_eq!(info.last_refresh.as_deref(), Some("t"));
    assert!(info.record_key.is_none() && info.email.is_none());
}

#[test]
fn auth_errors() {
    match parse_auth_bytes(b"{not json") {
        Err(SwitchyardError::ParseJson { path, detail }) => {
            assert_eq!(path, "auth.json");
            assert!(!detail.is_empty());
        }
        other => panic!("unexpected {other:?}"),
    }
    assert!(matches!(parse_auth_bytes(br#"{"OPENAI_API_KEY":""}"#), Err(SwitchyardError::IncompleteAuth)));
    assert!(matches!(parse_auth_bytes(b"[1, 2]"), Err(SwitchyardError::IncompleteAuth)));
    assert!(matches!(
        parse_auth_bytes(br#"{"tokens":{"access_token":"a"}}"#),
        Err(SwitchyardError::IncompleteAuth)
    ));
    assert!(matches!(
        parse_auth_bytes(br#"{"tokens":{"id_token":"not-a-jwt"}}"#),
        Err(SwitchyardError::InvalidJwt)
    ));
    assert!(matches!(
        parse_auth_bytes(tokens_auth("not json", None).as_bytes()),
        Err(SwitchyardError::InvalidAuthFormat)
    ));
    assert!(matches!(
        parse_auth_bytes(tokens_auth(r#"{"email":"e"}"#, Some("acct-1")).as_bytes()),
        Err(SwitchyardError::IncompleteAuth)
    ));
    assert!(matches!(
        parse_auth_bytes(
            tokens_auth(r#"{"https://api.openai.com/auth":{"chatgpt_account_id":"acct-2"}}"#, Some("acct-1"))
                .as_bytes()
        ),
        Err(SwitchyardError::AccountIdMismatch)
    ));
}

#[test]
fn chatgpt_auth_fields() {
    let claims = r#"{"email":"Mixed.Case@Example.COM","https://api.openai.com/auth":{"chatgpt_account_id":"acct-9","user_id":"user-9","chatgpt_plan_type":""}}"#;
    let info = parse_auth_bytes(tokens_auth(claims, None).as_bytes()).unwrap();
    assert_eq!(info.auth_mode, "chatgpt");
    assert_eq!(info.email.as_deref(), Some("mixed.case@example.com"));
    assert_eq!(info.chatgpt_account_id.as_deref(), Some("acct-9"));
    assert_eq!(info.chatgpt_user_id.as_deref(), Some("user-9"));
    assert_eq!(info.record_key.as_deref(), Some("user-9::acct-9"));
    assert_eq!(info.access_token.as_deref(), Some("at"));
    assert_eq!(info.last_refresh.as_deref(), Some("when"));
    assert!(info.plan.is_none());

    let empty_user = r#"{"https://api.openai.com/auth":{"chatgpt_user_id":"","user_id":"fallback"}}"#;
    let info = parse_auth_bytes(tokens_auth(empty_user, Some("acct-1")).as_bytes()).unwrap();
    assert!(info.chatgpt_user_id.is_none());
    assert!(info.record_key.is_none());
    assert!(info.email.is_none());
    assert_eq!(info.chatgpt_account_id.as_deref(), Some("acct-1"));
}

fn run_switch(
    registry: RegistryData,
    key: &str,
    exists: bool,
    copy_result: Result<(), SwitchyardError>,
) -> switchyard_core::SwitchState {
    let mut state = switch_begin("/h", key, registry);
    let mut copy_result = Some(copy_result);
    loop {
        let event = match switch_action(&state) {
            SwitchAction::CheckExists { .. } => SwitchEvent::Exists(exists),
            SwitchAction::ReadRecordKey { .. } => SwitchEvent::RecordKey(None),
            SwitchAction::Copy { .. } => SwitchEvent::Completed(copy_result.take().unwrap_or(Ok(()))),
            SwitchAction::ReadClock => SwitchEvent::Clock(2_000),
            SwitchAction::Save => SwitchEvent::Completed(Ok(())),
            SwitchAction::Finish => break,
        };
        state = switch_step(state, event);
    }
    state
}

#[test]
fn switch_refusals() {
    let mut r = RegistryData::default();
    r.accounts = vec![account("k", "a")];
    let s = run_switch(r, "missing", true, Ok(()));
    match s.phase {
        SwitchPhase::Finished(Err(SwitchyardError::AccountNotFound { account_key })) => {
            assert_eq!(account_key, "missing")
        }
        other => panic!("unexpected {other:?}"),
    }
    assert!(s.registry.active_account_key.is_none());

    let mut r = RegistryData::default();
    r.accounts = vec![account("k", "a")];
    let s = run_switch(r, "k", false, Ok(()));
    match s.phase {
        SwitchPhase::Finished(Err(SwitchyardError::MissingSnapshot { path })) => {
            assert_eq!(path, "/h/accounts/k.auth.json")
        }
        other => panic!("unexpected {other:?}"),
    }

    let mut r = RegistryData::default();
    r.accounts = vec![account("k", "a")];
    let err = SwitchyardError::WriteFile { path: "p".to_string(), detail: "d".to_string() };
    let s = run_switch(r, "k", true, Err(err));
    assert!(matches!(s.phase, SwitchPhase::Finished(Err(SwitchyardError::WriteFile { .. }))));
    assert!(s.registry.active_account_key.is_none());

    let mut r = RegistryData::default();
    r.accounts = vec![account("k", "a")];
    let s = run_switch(r, "k", true, Ok(()));
    assert!(matches!(s.phase, SwitchPhase::Finished(Ok(()))));
    assert_eq!(s.registry.active_account_key.as_deref(), Some("k"));
    assert_eq!(s.registry.accounts[0].last_used_at, Some(2));
}

#[test]
fn switch_ignores_unrelated_events() {
    let mut r = RegistryData::default();
    r.accounts = vec![account("k", "a")];
    let s = switch_begin("/h", "k", r);
    assert!(matches!(s.phase, SwitchPhase::ProbeSnapshot));
    let s = switch_step(s, SwitchEvent::Clock(1));
    assert!(matches!(s.phase, SwitchPhase::ProbeSnapshot));
    assert!(s.registry.active_account_key.is_none());
}

#[test]
fn switch_syncs_only_own_credentials() {
    let mut r = RegistryData::default();
    r.accounts = vec![account("a", "a"), account("b", "b")];
    r.active_account_key = Some("a".to_string());
    let s = switch_begin("/h", "b", r);
    assert!(matches!(s.phase, SwitchPhase::ProbeActiveAuth));
    let s = switch_step(s, SwitchEvent::Exists(true));
    let s = switch_step(s, SwitchEvent::RecordKey(Some("b".to_string())));
    assert!(matches!(s.phase, SwitchPhase::ProbeSnapshot));

    let mut r = RegistryData::default();
    r.accounts = vec![account("a", "a"), account("b", "b")];
    r.active_account_key = Some("a".to_string());
    let s = switch_begin("/h", "b", r);
    let s = switch_step(s, SwitchEvent::Exists(true));
    let s = switch_step(s, SwitchEvent::RecordKey(Some("a".to_string())));
    match switch_action(&s) {
        SwitchAction::Copy { from, to } => {
            assert_eq!(from, "/h/auth.json");
            assert_eq!(to, "/h/accounts/a.auth.json");
        }
        other => panic!("unexpected {other:?}"),
    }
}

#[test]
fn auth_stages_on_given_documents() {
    let root = JsonValue::Object(vec![
        (
            "tokens".to_string(),
            JsonValue::Object(vec![
                ("id_token".to_string(), JsonValue::Str(token_with_payload("{}"))),
                ("account_id".to_string(), JsonValue::Str("acct-1".to_string())),
            ]),
        ),
    ]);
    let tokens = match switchyard_core::read_auth_root(&root) {
        switchyard_core::AuthStage::NeedClaims(t) => t,
        other => panic!("unexpected {other:?}"),
    };
    assert_eq!(tokens.payload, b"{}".to_vec());
    assert_eq!(tokens.account_id.as_deref(), Some("acct-1"));
    assert!(tokens.access_token.is_none());
    let claims = JsonValue::Object(vec![(
        "https://api.openai.com/auth".to_string(),
        JsonValue::Object(vec![("chatgpt_user_id".to_string(), JsonValue::Str("u".to_string()))]),
    )]);
    let info = switchyard_core::read_auth_claims(tokens, Some(&claims)).unwrap();
    assert_eq!(info.record_key.as_deref(), Some("u::acct-1"));
}

#[test]
fn error_messages_carry_their_details() {
    assert_eq!(
        SwitchyardError::AccountNotFound { account_key: "k".to_string() }.message(),
        "未找到账号: k"
    );
    assert_eq!(
        SwitchyardError::ReadFile { path: "/h/auth.json".to_string(), detail: "denied".to_string() }
            .message(),
        "无法读取文件 /h/auth.json: denied"
    );
    assert_eq!(
        SwitchyardError::MissingRegistry { path: "/h/accounts/registry.json".to_string() }.message(),
        "未找到注册表文件: /h/accounts/registry.json"
    );
    assert_eq!(
        SwitchyardError::EncodeJson { detail: "bad".to_string() }.message(),
        "无法序列化注册表: bad"
    );
    assert_eq!(SwitchyardError::InvalidJwt.message(), "无法解码 JWT 载荷");
    assert_eq!(SwitchyardError::HomeDirMissing.message(), "未找到主目录，无法定位 .codex");
}

#[test]
fn temp_names_write_the_stamp_in_decimal() {
    assert_eq!(temp_path_for("/h/a", 9), "/h/.a.9.tmp");
    assert_eq!(temp_path_for("/h/a", 10), "/h/.a.10.tmp");
    assert_eq!(temp_path_for("/h/a", 1700000000123), "/h/.a.1700000000123.tmp");
    assert_eq!(temp_path_for("/h/a", i64::MAX), "/h/.a.9223372036854775807.tmp");
    assert_eq!(temp_path_for("/h/a", i64::MIN), "/h/.a.-9223372036854775808.tmp");
    assert_eq!(temp_path_for("/h/a", -1), "/h/.a.-1.tmp");
}
