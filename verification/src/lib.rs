//! The core of a menu-bar switcher for Codex accounts: the account registry
//! (`~/.codex/accounts/registry.json`), the credentials snapshots beside it, the panel that
//! lists the accounts, and switching the active account.
//!
//! The library decides; its caller reads and writes the files, parses and prints JSON and
//! reads the clock, and hands the results in as plain values.

pub mod auth;
pub mod base64url;
pub mod json;
pub mod model;
pub mod panel;
pub mod paths;
pub mod switch;
pub mod text;

pub use auth::{
    decode_jwt_payload, parse_auth_bytes, read_auth_claims, read_auth_root, AuthInfo, AuthStage,
    TokenFields,
};
pub use json::{string_field, JsonValue};
pub use model::{
    default_schema_version, default_threshold_5h, default_threshold_weekly, default_true,
    AccountRecord, ApiConfig, AutoSwitchConfig, CreditsSnapshot, RateLimitSnapshot,
    RateLimitWindow, RegistryData, RolloutSignature, SwitchyardError,
};
pub use panel::{
    account_summary, display_name, load_panel_state, panel_state_from_registry,
    remaining_percent, resolve_window, AccountSummary, PanelState,
};
pub use paths::{
    account_auth_path, account_file_key, accounts_dir, active_auth_path, is_relevant_path,
    registry_path, resolve_codex_home, temp_path_for,
};
pub use switch::{
    apply_switch, set_auto_switch_enabled, set_usage_api_enabled, switch_action, switch_begin,
    switch_step, SwitchAction, SwitchEvent, SwitchPhase, SwitchState,
};
