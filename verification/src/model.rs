//! The account registry (`accounts/registry.json`) and the library's errors.
use vstd::prelude::*;
use crate::json::JsonValue;
use crate::text::{concat2, concat3};
use vstd::string::*;

verus! {

/// What can go wrong. Paths are text; `detail` carries the message of the failure that the
/// caller met while reading, writing or decoding.
#[derive(Debug)]
pub enum SwitchyardError {
    HomeDirMissing,
    ReadFile { path: String, detail: String },
    WriteFile { path: String, detail: String },
    ParseJson { path: String, detail: String },
    EncodeJson { detail: String },
    MissingRegistry { path: String },
    AccountNotFound { account_key: String },
    MissingSnapshot { path: String },
    IncompleteAuth,
    AccountIdMismatch,
    InvalidAuthFormat,
    InvalidJwt,
}

/// The message that describes an error, with the path, key or detail it carries.
pub open spec fn error_message(e: SwitchyardError) -> Seq<char> {
    match e {
        SwitchyardError::HomeDirMissing => "未找到主目录，无法定位 .codex"@,
        SwitchyardError::ReadFile { path, detail } => "无法读取文件 "@ + path@ + ": "@ + detail@,
        SwitchyardError::WriteFile { path, detail } => "无法写入文件 "@ + path@ + ": "@ + detail@,
        SwitchyardError::ParseJson { path, detail } => "无法解析 JSON "@ + path@ + ": "@ + detail@,
        SwitchyardError::EncodeJson { detail } => "无法序列化注册表: "@ + detail@,
        SwitchyardError::MissingRegistry { path } => "未找到注册表文件: "@ + path@,
        SwitchyardError::AccountNotFound { account_key } => "未找到账号: "@ + account_key@,
        SwitchyardError::MissingSnapshot { path } => "未找到账号快照文件: "@ + path@,
        SwitchyardError::IncompleteAuth => "auth.json 格式不完整，缺少必要账号字段"@,
        SwitchyardError::AccountIdMismatch => "auth.json 中的 account_id 与 JWT claim 不一致"@,
        SwitchyardError::InvalidAuthFormat => "auth.json 不是合法的 JWT/JSON 格式"@,
        SwitchyardError::InvalidJwt => "无法解码 JWT 载荷"@,
    }
}

impl SwitchyardError {
    /// The message shown for this error.
    pub fn message(&self) -> (r: String)
        ensures
            r@ == error_message(*self),
    {
        match self {
            SwitchyardError::HomeDirMissing => "未找到主目录，无法定位 .codex".to_owned(),
            SwitchyardError::ReadFile { path, detail } => {
                let mut m = concat3("无法读取文件 ", path.as_str(), ": ");
                m.append(detail.as_str());
                m
            },
            SwitchyardError::WriteFile { path, detail } => {
                let mut m = concat3("无法写入文件 ", path.as_str(), ": ");
                m.append(detail.as_str());
                m
            },
            SwitchyardError::ParseJson { path, detail } => {
                let mut m = concat3("无法解析 JSON ", path.as_str(), ": ");
                m.append(detail.as_str());
                m
            },
            SwitchyardError::EncodeJson { detail } => concat2("无法序列化注册表: ", detail.as_str()),
            SwitchyardError::MissingRegistry { path } => concat2("未找到注册表文件: ", path.as_str()),
            SwitchyardError::AccountNotFound { account_key } => concat2(
                "未找到账号: ",
                account_key.as_str(),
            ),
            SwitchyardError::MissingSnapshot { path } => concat2("未找到账号快照文件: ", path.as_str()),
            SwitchyardError::IncompleteAuth => "auth.json 格式不完整，缺少必要账号字段".to_owned(),
            SwitchyardError::AccountIdMismatch => "auth.json 中的 account_id 与 JWT claim 不一致".to_owned(),
            SwitchyardError::InvalidAuthFormat => "auth.json 不是合法的 JWT/JSON 格式".to_owned(),
            SwitchyardError::InvalidJwt => "无法解码 JWT 载荷".to_owned(),
        }
    }
}

/// Entries of a JSON object that the library keeps without reading them.
pub type ExtraFields = Vec<(String, JsonValue)>;

/// The schema version that a registry without one is read with.
pub fn default_schema_version() -> (r: u32)
    ensures
        r == 3,
{
    3
}

/// The 5-hour threshold, in percent, that a registry without one is read with.
pub fn default_threshold_5h() -> (r: i32)
    ensures
        r == 10,
{
    10
}

/// The weekly threshold, in percent, that a registry without one is read with.
pub fn default_threshold_weekly() -> (r: i32)
    ensures
        r == 5,
{
    5
}

/// The value of the API switches that a registry without them is read with.
pub fn default_true() -> (r: bool)
    ensures
        r,
{
    true
}

#[derive(Debug)]
pub struct AutoSwitchConfig {
    pub enabled: bool,
    pub threshold_5h_percent: i32,
    pub threshold_weekly_percent: i32,
    pub extra: ExtraFields,
}

impl Default for AutoSwitchConfig {
    fn default() -> (r: Self)
        ensures
            !r.enabled,
            r.threshold_5h_percent == 10,
            r.threshold_weekly_percent == 5,
            r.extra@.len() == 0,
    {
        AutoSwitchConfig {
            enabled: false,
            threshold_5h_percent: default_threshold_5h(),
            threshold_weekly_percent: default_threshold_weekly(),
            extra: Vec::new(),
        }
    }
}

#[derive(Debug)]
pub struct ApiConfig {
    pub usage: bool,
    pub account: bool,
    pub extra: ExtraFields,
}

impl Default for ApiConfig {
    fn default() -> (r: Self)
        ensures
            r.usage,
            r.account,
            r.extra@.len() == 0,
    {
        ApiConfig { usage: true, account: true, extra: Vec::new() }
    }
}

/// One usage window. `used_percent` is a float in the registry file: the library keeps its
/// bits (`used_percent_bits`, to write it back unchanged) and `remaining_estimate`, which is
/// `100 - used_percent` rounded to the nearest integer, as the reader of the file computed it.
#[derive(Debug)]
pub struct RateLimitWindow {
    pub used_percent_bits: u64,
    pub remaining_estimate: i32,
    pub window_minutes: Option<i64>,
    pub resets_at: Option<i64>,
    pub extra: ExtraFields,
}

impl Default for RateLimitWindow {
    fn default() -> (r: Self)
        ensures
            r.used_percent_bits == 0,
            r.remaining_estimate == 100,
            r.window_minutes is None,
            r.resets_at is None,
            r.extra@.len() == 0,
    {
        RateLimitWindow {
            used_percent_bits: 0,
            remaining_estimate: 100,
            window_minutes: None,
            resets_at: None,
            extra: Vec::new(),
        }
    }
}

#[derive(Debug)]
pub struct CreditsSnapshot {
    pub has_credits: bool,
    pub unlimited: bool,
    pub balance: Option<String>,
    pub extra: ExtraFields,
}

impl Default for CreditsSnapshot {
    fn default() -> (r: Self)
        ensures
            !r.has_credits,
            !r.unlimited,
            r.balance is None,
            r.extra@.len() == 0,
    {
        CreditsSnapshot { has_credits: false, unlimited: false, balance: None, extra: Vec::new() }
    }
}

#[derive(Debug)]
pub struct RateLimitSnapshot {
    pub primary: Option<RateLimitWindow>,
    pub secondary: Option<RateLimitWindow>,
    pub credits: Option<CreditsSnapshot>,
    pub plan_type: Option<String>,
    pub extra: ExtraFields,
}

impl Default for RateLimitSnapshot {
    fn default() -> (r: Self)
        ensures
            r.primary is None,
            r.secondary is None,
            r.credits is None,
            r.plan_type is None,
            r.extra@.len() == 0,
    {
        RateLimitSnapshot {
            primary: None,
            secondary: None,
            credits: None,
            plan_type: None,
            extra: Vec::new(),
        }
    }
}

#[derive(Debug)]
pub struct RolloutSignature {
    pub path: String,
    pub event_timestamp_ms: i64,
    pub extra: ExtraFields,
}

impl Default for RolloutSignature {
    fn default() -> (r: Self)
        ensures
            r.path@.len() == 0,
            r.event_timestamp_ms == 0,
            r.extra@.len() == 0,
    {
        RolloutSignature { path: String::new(), event_timestamp_ms: 0, extra: Vec::new() }
    }
}

#[derive(Debug)]
pub struct AccountRecord {
    pub account_key: String,
    pub chatgpt_account_id: String,
    pub chatgpt_user_id: String,
    pub email: String,
    pub alias: String,
    pub account_name: Option<String>,
    pub plan: Option<String>,
    pub auth_mode: Option<String>,
    pub created_at: i64,
    pub last_used_at: Option<i64>,
    pub last_usage: Option<RateLimitSnapshot>,
    pub last_usage_at: Option<i64>,
    pub last_local_rollout: Option<RolloutSignature>,
    pub extra: ExtraFields,
}

impl Default for AccountRecord {
    fn default() -> (r: Self)
        ensures
            r.account_key@.len() == 0,
            r.chatgpt_account_id@.len() == 0,
            r.chatgpt_user_id@.len() == 0,
            r.email@.len() == 0,
            r.alias@.len() == 0,
            r.account_name is None,
            r.plan is None,
            r.auth_mode is None,
            r.created_at == 0,
            r.last_used_at is None,
            r.last_usage is None,
            r.last_usage_at is None,
            r.last_local_rollout is None,
            r.extra@.len() == 0,
    {
        AccountRecord {
            account_key: String::new(),
            chatgpt_account_id: String::new(),
            chatgpt_user_id: String::new(),
            email: String::new(),
            alias: String::new(),
            account_name: None,
            plan: None,
            auth_mode: None,
            created_at: 0,
            last_used_at: None,
            last_usage: None,
            last_usage_at: None,
            last_local_rollout: None,
            extra: Vec::new(),
        }
    }
}

/// The whole registry.
#[derive(Debug)]
pub struct RegistryData {
    pub schema_version: u32,
    pub active_account_key: Option<String>,
    pub active_account_activated_at_ms: Option<i64>,
    pub auto_switch: AutoSwitchConfig,
    pub api: ApiConfig,
    pub accounts: Vec<AccountRecord>,
    pub extra: ExtraFields,
}

impl Default for RegistryData {
    fn default() -> (r: Self)
        ensures
            r.schema_version == 3,
            r.active_account_key is None,
            r.active_account_activated_at_ms is None,
            !r.auto_switch.enabled,
            r.auto_switch.threshold_5h_percent == 10,
            r.auto_switch.threshold_weekly_percent == 5,
            r.auto_switch.extra@.len() == 0,
            r.api.usage,
            r.api.account,
            r.api.extra@.len() == 0,
            r.accounts@.len() == 0,
            r.extra@.len() == 0,
    {
        RegistryData {
            schema_version: default_schema_version(),
            active_account_key: None,
            active_account_activated_at_ms: None,
            auto_switch: AutoSwitchConfig::default(),
            api: ApiConfig::default(),
            accounts: Vec::new(),
            extra: Vec::new(),
        }
    }
}

} // verus!
