//! Changing the registry: the two settings switches, and switching the active account.
use vstd::prelude::*;
use vstd::string::*;
use crate::model::{AccountRecord, ApiConfig, AutoSwitchConfig, RegistryData, SwitchyardError};
use crate::panel::{is_panel_of, registry_summaries, stable_rank_sort_by, PanelView};
use crate::paths::{account_auth_path, account_auth_path_of, active_auth_path, active_auth_path_of};
use crate::text::{opt_view, same_text, seconds_of, trunc_seconds};

verus! {

/// `new` is `old` with automatic switching set to `enabled` and nothing else changed.
pub open spec fn is_auto_switch_set(old: RegistryData, new: RegistryData, enabled: bool) -> bool {
    new == (RegistryData { auto_switch: (AutoSwitchConfig { enabled: enabled, ..old.auto_switch }), ..old })
}

/// `new` is `old` with the usage and account APIs both set to `enabled` and nothing else
/// changed.
pub open spec fn is_usage_api_set(old: RegistryData, new: RegistryData, enabled: bool) -> bool {
    new == (RegistryData { api: (ApiConfig { usage: enabled, account: enabled, ..old.api }), ..old })
}

/// Turns automatic switching on or off; nothing else changes.
pub fn set_auto_switch_enabled(registry: &mut RegistryData, enabled: bool)
    ensures
        is_auto_switch_set(*old(registry), *final(registry), enabled),
{
    registry.auto_switch.enabled = enabled;
}

/// Turns the usage and account APIs on or off together; nothing else changes.
pub fn set_usage_api_enabled(registry: &mut RegistryData, enabled: bool)
    ensures
        is_usage_api_set(*old(registry), *final(registry), enabled),
{
    registry.api.usage = enabled;
    registry.api.account = enabled;
}

/// Setting automatic switching twice to the same value leaves the registry as the first
/// setting left it.
pub proof fn lemma_auto_switch_set_twice(r0: RegistryData, r1: RegistryData, r2: RegistryData, enabled: bool)
    requires
        is_auto_switch_set(r0, r1, enabled),
        is_auto_switch_set(r1, r2, enabled),
    ensures
        r2 == r1,
{
}

/// Setting the APIs twice to the same value leaves the registry as the first setting left
/// it, and the usage and account switches always agree afterwards.
pub proof fn lemma_usage_api_set_twice(r0: RegistryData, r1: RegistryData, r2: RegistryData, enabled: bool)
    requires
        is_usage_api_set(r0, r1, enabled),
        is_usage_api_set(r1, r2, enabled),
    ensures
        r2 == r1,
        r1.api.usage == r1.api.account,
{
}

/// Setting automatic switching makes it exactly the value asked for, whatever it was, and
/// leaves every other setting, the accounts and the active account as they were.
pub proof fn lemma_auto_switch_takes_the_value(old: RegistryData, new: RegistryData, enabled: bool)
    requires
        is_auto_switch_set(old, new, enabled),
    ensures
        new.auto_switch.enabled == enabled,
        new.auto_switch.threshold_5h_percent == old.auto_switch.threshold_5h_percent,
        new.auto_switch.threshold_weekly_percent == old.auto_switch.threshold_weekly_percent,
        new.auto_switch.extra == old.auto_switch.extra,
        new.api == old.api,
        new.accounts == old.accounts,
        new.active_account_key == old.active_account_key,
        new.active_account_activated_at_ms == old.active_account_activated_at_ms,
        new.schema_version == old.schema_version,
        new.extra == old.extra,
{
}

/// Setting the APIs makes both the usage and the account switch exactly the value asked
/// for, whatever they were, and leaves everything else as it was.
pub proof fn lemma_usage_api_takes_the_value(old: RegistryData, new: RegistryData, enabled: bool)
    requires
        is_usage_api_set(old, new, enabled),
    ensures
        new.api.usage == enabled,
        new.api.account == enabled,
        new.api.extra == old.api.extra,
        new.auto_switch == old.auto_switch,
        new.accounts == old.accounts,
        new.active_account_key == old.active_account_key,
        new.active_account_activated_at_ms == old.active_account_activated_at_ms,
        new.schema_version == old.schema_version,
        new.extra == old.extra,
{
}

/// The index of the first account at or after `from` whose key is `key`.
pub open spec fn position_from(accounts: Seq<AccountRecord>, key: Seq<char>, from: int) -> Option<int>
    decreases accounts.len() - from,
{
    if from < 0 || from >= accounts.len() {
        None
    } else if accounts[from].account_key@ == key {
        Some(from)
    } else {
        position_from(accounts, key, from + 1)
    }
}

/// The index of the first account whose key is `key`.
pub open spec fn position_of(accounts: Seq<AccountRecord>, key: Seq<char>) -> Option<int> {
    position_from(accounts, key, 0)
}

proof fn lemma_position_from(accounts: Seq<AccountRecord>, key: Seq<char>, from: int)
    requires
        0 <= from,
    ensures
        match position_from(accounts, key, from) {
            Some(i) => from <= i < accounts.len() && accounts[i].account_key@ == key && forall|j: int|
                from <= j < i ==> accounts[j].account_key@ != key,
            None => forall|j: int| from <= j < accounts.len() ==> accounts[j].account_key@ != key,
        },
    decreases accounts.len() - from,
{
    if from < accounts.len() && accounts[from].account_key@ != key {
        lemma_position_from(accounts, key, from + 1);
    }
}

/// The first position of `key` is determined by the keys alone.
proof fn lemma_position_same_keys(a: Seq<AccountRecord>, b: Seq<AccountRecord>, key: Seq<char>, from: int)
    requires
        a.len() == b.len(),
        forall|j: int| 0 <= j < a.len() ==> a[j].account_key@ == b[j].account_key@,
    ensures
        position_from(a, key, from) == position_from(b, key, from),
    decreases a.len() - from,
{
    if 0 <= from < a.len() {
        lemma_position_same_keys(a, b, key, from + 1);
    }
}

/// Where the account with key `key` stands in the registry, if it is there.
pub fn find_account(registry: &RegistryData, key: &str) -> (r: Option<usize>)
    ensures
        match r {
            Some(i) => position_of(registry.accounts@, key@) == Some(i as int),
            None => position_of(registry.accounts@, key@) is None,
        },
{
    let n: usize = registry.accounts.len();
    let mut i: usize = 0;
    while i < n
        invariant
            n == registry.accounts@.len(),
            i <= n,
            position_of(registry.accounts@, key@) == position_from(registry.accounts@, key@, i as int),
        decreases n - i,
    {
        if same_text(registry.accounts[i].account_key.as_str(), key) {
            return Some(i);
        }
        i = i + 1;
    }
    None
}

/// `old` switched to the account `key` at `now_ms`: it becomes active, activated then, and
/// the first account with that key was last used at `now_ms` in seconds; all else stays.
pub open spec fn is_switched(old: RegistryData, new: RegistryData, key: Seq<char>, now_ms: i64) -> bool {
    &&& opt_view(new.active_account_key) == Some(key)
    &&& new.active_account_activated_at_ms == Some(now_ms)
    &&& new.accounts@ == match position_of(old.accounts@, key) {
        Some(i) => old.accounts@.update(
            i,
            (AccountRecord { last_used_at: Some(trunc_seconds(now_ms as int) as i64), ..old.accounts@[i] }),
        ),
        None => old.accounts@,
    }
    &&& new.schema_version == old.schema_version
    &&& new.auto_switch == old.auto_switch
    &&& new.api == old.api
    &&& new.extra == old.extra
}

/// Makes `account_key` the active account at `now_ms` (milliseconds since the epoch).
pub fn apply_switch(registry: &mut RegistryData, account_key: &str, now_ms: i64)
    ensures
        is_switched(*old(registry), *final(registry), account_key@, now_ms),
{
    let now_seconds: i64 = seconds_of(now_ms);
    registry.active_account_key = Some(account_key.to_owned());
    registry.active_account_activated_at_ms = Some(now_ms);
    let ghost before = registry.accounts@;
    match find_account(registry, account_key) {
        Some(i) => {
            proof {
                lemma_position_from(before, account_key@, 0);
            }
            let mut account = registry.accounts.remove(i);
            account.last_used_at = Some(now_seconds);
            registry.accounts.insert(i, account);
            assert(registry.accounts@ =~= before.update(i as int, account));
        },
        None => {},
    }
}

/// Where a switch stands.
#[derive(Debug)]
pub enum SwitchPhase {
    /// Does the current `auth.json` exist?
    ProbeActiveAuth,
    /// Which account does the current `auth.json` belong to?
    ReadActiveAuth,
    /// Saving the current `auth.json` as the active account's snapshot, at this path.
    SyncSnapshot(String),
    /// Does the target account's snapshot exist?
    ProbeSnapshot,
    /// Copying the target's snapshot over `auth.json`.
    CopySnapshot,
    /// Reading the clock.
    ReadClock,
    /// Writing the registry.
    SaveRegistry,
    Finished(Result<(), SwitchyardError>),
}

/// A switch to the account `account_key` under `codex_home`, with the registry it works on.
#[derive(Debug)]
pub struct SwitchState {
    pub codex_home: String,
    pub account_key: String,
    pub registry: RegistryData,
    pub phase: SwitchPhase,
}

/// What the caller found out about the outside world.
#[derive(Debug)]
pub enum SwitchEvent {
    Exists(bool),
    /// The record key of the current `auth.json`, or `None` when it has none or cannot be read.
    RecordKey(Option<String>),
    Completed(Result<(), SwitchyardError>),
    Clock(i64),
}

/// What the caller is asked to do next.
#[derive(Debug)]
pub enum SwitchAction {
    CheckExists { path: String },
    ReadRecordKey { path: String },
    Copy { from: String, to: String },
    ReadClock,
    /// Write `registry` of the state.
    Save,
    /// The result is in the phase.
    Finish,
}

/// The state a switch starts in.
pub open spec fn switch_start_spec(codex_home: Seq<char>, key: Seq<char>, registry: RegistryData, s: SwitchState) -> bool {
    &&& s.codex_home@ == codex_home
    &&& s.account_key@ == key
    &&& s.registry == registry
    &&& if position_of(registry.accounts@, key) is None {
        s.phase matches SwitchPhase::Finished(Err(SwitchyardError::AccountNotFound { account_key }))
            && account_key@ == key
    } else if registry.active_account_key is Some {
        s.phase == SwitchPhase::ProbeActiveAuth
    } else {
        s.phase == SwitchPhase::ProbeSnapshot
    }
}

/// Starts switching to `account_key`: refused at once when the registry has no such account;
/// otherwise the current credentials are first saved as the active account's snapshot (when
/// there is an active account and the file is its own), then the target's snapshot must
/// exist to be copied over `auth.json`.
pub fn switch_begin(codex_home: &str, account_key: &str, registry: RegistryData) -> (s: SwitchState)
    ensures
        switch_start_spec(codex_home@, account_key@, registry, s),
{
    let phase = if find_account(&registry, account_key).is_none() {
        SwitchPhase::Finished(Err(SwitchyardError::AccountNotFound { account_key: account_key.to_owned() }))
    } else if registry.active_account_key.is_some() {
        SwitchPhase::ProbeActiveAuth
    } else {
        SwitchPhase::ProbeSnapshot
    };
    SwitchState {
        codex_home: codex_home.to_owned(),
        account_key: account_key.to_owned(),
        registry,
        phase,
    }
}

/// One step of a switch: `t` is what `s` becomes on `e`. An event that does not answer the
/// pending action leaves the state as it is.
pub open spec fn switch_step_spec(s: SwitchState, e: SwitchEvent, t: SwitchState) -> bool {
    let home = s.codex_home@;
    let key = s.account_key@;
    &&& t.codex_home == s.codex_home
    &&& t.account_key == s.account_key
    &&& match (s.phase, e) {
        (SwitchPhase::ProbeActiveAuth, SwitchEvent::Exists(found)) => t.registry == s.registry
            && t.phase == if found {
            SwitchPhase::ReadActiveAuth
        } else {
            SwitchPhase::ProbeSnapshot
        },
        (SwitchPhase::ReadActiveAuth, SwitchEvent::RecordKey(rk)) => t.registry == s.registry
            && if rk is Some && opt_view(rk) == opt_view(s.registry.active_account_key) {
            t.phase matches SwitchPhase::SyncSnapshot(target) && target@ == account_auth_path_of(
                home,
                rk.unwrap()@,
            )
        } else {
            t.phase == SwitchPhase::ProbeSnapshot
        },
        (SwitchPhase::SyncSnapshot(_), SwitchEvent::Completed(_)) => t.registry == s.registry
            && t.phase == SwitchPhase::ProbeSnapshot,
        (SwitchPhase::ProbeSnapshot, SwitchEvent::Exists(found)) => t.registry == s.registry && if found {
            t.phase == SwitchPhase::CopySnapshot
        } else {
            t.phase matches SwitchPhase::Finished(Err(SwitchyardError::MissingSnapshot { path }))
                && path@ == account_auth_path_of(home, key)
        },
        (SwitchPhase::CopySnapshot, SwitchEvent::Completed(result)) => t.registry == s.registry
            && t.phase == match result {
            Ok(()) => SwitchPhase::ReadClock,
            Err(err) => SwitchPhase::Finished(Err(err)),
        },
        (SwitchPhase::ReadClock, SwitchEvent::Clock(now_ms)) => t.phase == SwitchPhase::SaveRegistry
            && is_switched(s.registry, t.registry, key, now_ms),
        (SwitchPhase::SaveRegistry, SwitchEvent::Completed(result)) => t.registry == s.registry
            && t.phase == SwitchPhase::Finished(result),
        _ => t == s,
    }
}

/// Advances a switch by the answer to its pending action.
pub fn switch_step(s: SwitchState, e: SwitchEvent) -> (t: SwitchState)
    ensures
        switch_step_spec(s, e, t),
{
    let SwitchState { codex_home, account_key, mut registry, phase } = s;
    let ghost s0 = s;
    let next = match (phase, e) {
        (SwitchPhase::ProbeActiveAuth, SwitchEvent::Exists(found)) => if found {
            SwitchPhase::ReadActiveAuth
        } else {
            SwitchPhase::ProbeSnapshot
        },
        (SwitchPhase::ReadActiveAuth, SwitchEvent::RecordKey(rk)) => {
            let matching = match (&rk, &registry.active_account_key) {
                (Some(r), Some(a)) => same_text(r.as_str(), a.as_str()),
                _ => false,
            };
            if matching {
                let r = rk.unwrap();
                SwitchPhase::SyncSnapshot(account_auth_path(codex_home.as_str(), r.as_str()))
            } else {
                SwitchPhase::ProbeSnapshot
            }
        },
        (SwitchPhase::SyncSnapshot(_), SwitchEvent::Completed(_)) => SwitchPhase::ProbeSnapshot,
        (SwitchPhase::ProbeSnapshot, SwitchEvent::Exists(found)) => if found {
            SwitchPhase::CopySnapshot
        } else {
            SwitchPhase::Finished(
                Err(
                    SwitchyardError::MissingSnapshot {
                        path: account_auth_path(codex_home.as_str(), account_key.as_str()),
                    },
                ),
            )
        },
        (SwitchPhase::CopySnapshot, SwitchEvent::Completed(result)) => match result {
            Ok(()) => SwitchPhase::ReadClock,
            Err(err) => SwitchPhase::Finished(Err(err)),
        },
        (SwitchPhase::ReadClock, SwitchEvent::Clock(now_ms)) => {
            apply_switch(&mut registry, account_key.as_str(), now_ms);
            SwitchPhase::SaveRegistry
        },
        (SwitchPhase::SaveRegistry, SwitchEvent::Completed(result)) => SwitchPhase::Finished(result),
        (other, _) => other,
    };
    SwitchState { codex_home, account_key, registry, phase: next }
}

/// The action that a switch waits for in state `s`.
pub open spec fn switch_action_spec(s: SwitchState, a: SwitchAction) -> bool {
    let home = s.codex_home@;
    let key = s.account_key@;
    match s.phase {
        SwitchPhase::ProbeActiveAuth => a matches SwitchAction::CheckExists { path }
            && path@ == active_auth_path_of(home),
        SwitchPhase::ReadActiveAuth => a matches SwitchAction::ReadRecordKey { path }
            && path@ == active_auth_path_of(home),
        SwitchPhase::SyncSnapshot(target) => a matches SwitchAction::Copy { from, to }
            && from@ == active_auth_path_of(home) && to == target,
        SwitchPhase::ProbeSnapshot => a matches SwitchAction::CheckExists { path }
            && path@ == account_auth_path_of(home, key),
        SwitchPhase::CopySnapshot => a matches SwitchAction::Copy { from, to }
            && from@ == account_auth_path_of(home, key) && to@ == active_auth_path_of(home),
        SwitchPhase::ReadClock => a is ReadClock,
        SwitchPhase::SaveRegistry => a is Save,
        SwitchPhase::Finished(_) => a is Finish,
    }
}

/// The action that a switch waits for.
pub fn switch_action(s: &SwitchState) -> (a: SwitchAction)
    ensures
        switch_action_spec(*s, a),
{
    let home = s.codex_home.as_str();
    match &s.phase {
        SwitchPhase::ProbeActiveAuth => SwitchAction::CheckExists { path: active_auth_path(home) },
        SwitchPhase::ReadActiveAuth => SwitchAction::ReadRecordKey { path: active_auth_path(home) },
        SwitchPhase::SyncSnapshot(target) => SwitchAction::Copy {
            from: active_auth_path(home),
            to: target.clone(),
        },
        SwitchPhase::ProbeSnapshot => SwitchAction::CheckExists {
            path: account_auth_path(home, s.account_key.as_str()),
        },
        SwitchPhase::CopySnapshot => SwitchAction::Copy {
            from: account_auth_path(home, s.account_key.as_str()),
            to: active_auth_path(home),
        },
        SwitchPhase::ReadClock => SwitchAction::ReadClock,
        SwitchPhase::SaveRegistry => SwitchAction::Save,
        SwitchPhase::Finished(_) => SwitchAction::Finish,
    }
}


/// Whether a switch is still before its clock reading, when the registry has not changed.
pub open spec fn before_clock(p: SwitchPhase) -> bool {
    match p {
        SwitchPhase::ReadClock => true,
        SwitchPhase::SaveRegistry => false,
        SwitchPhase::Finished(_) => false,
        _ => true,
    }
}

/// What holds of every state of a switch started on `initial`.
pub open spec fn switch_invariant(initial: RegistryData, s: SwitchState) -> bool {
    &&& before_clock(s.phase) ==> s.registry == initial
    &&& (s.phase == SwitchPhase::SaveRegistry || s.phase == SwitchPhase::Finished(Ok(())))
        ==> exists|now_ms: i64| is_switched(initial, s.registry, s.account_key@, now_ms)
    &&& position_of(initial.accounts@, s.account_key@) is None ==> (s.phase matches SwitchPhase::Finished(
        Err(SwitchyardError::AccountNotFound { .. }),
    ))
}

/// A switch starts in a state that satisfies the invariant.
pub proof fn lemma_switch_begin_invariant(codex_home: Seq<char>, key: Seq<char>, registry: RegistryData, s: SwitchState)
    requires
        switch_start_spec(codex_home, key, registry, s),
    ensures
        switch_invariant(registry, s),
{
}

/// Every step keeps the invariant. Hence a switch that finishes with `Ok` has saved the
/// registry switched to the requested account (active, activated at the time read, and
/// that account last used then), a switch to an account that the registry lacks ends
/// refused with `AccountNotFound`, and before the clock is read the registry is untouched.
pub proof fn lemma_switch_step_invariant(initial: RegistryData, s: SwitchState, e: SwitchEvent, t: SwitchState)
    requires
        switch_invariant(initial, s),
        switch_step_spec(s, e, t),
    ensures
        switch_invariant(initial, t),
{
    match (s.phase, e) {
        (SwitchPhase::ReadClock, SwitchEvent::Clock(now_ms)) => {
            assert(is_switched(initial, t.registry, t.account_key@, now_ms));
        },
        (SwitchPhase::SaveRegistry, SwitchEvent::Completed(result)) => {
        },
        _ => {},
    }
}

/// A switch that finishes with `Ok` leaves the requested account active and present in the
/// registry, with its last use at the switch time.
pub proof fn lemma_switch_success(initial: RegistryData, s: SwitchState)
    requires
        switch_invariant(initial, s),
        s.phase == SwitchPhase::Finished(Ok(())),
    ensures
        opt_view(s.registry.active_account_key) == Some(s.account_key@),
        match position_of(s.registry.accounts@, s.account_key@) {
            Some(i) => exists|now_ms: i64| s.registry.accounts@[i].last_used_at == Some(
                trunc_seconds(now_ms as int) as i64,
            ) && s.registry.active_account_activated_at_ms == Some(now_ms),
            None => false,
        },
{
    let key = s.account_key@;
    let now_ms: i64 = choose|now_ms: i64| is_switched(initial, s.registry, key, now_ms);
    let old_accounts = initial.accounts@;
    lemma_position_from(old_accounts, key, 0);
    let i: int = position_of(old_accounts, key).unwrap();
    let new_accounts = s.registry.accounts@;
    assert forall|j: int| 0 <= j < old_accounts.len() implies old_accounts[j].account_key@
        == new_accounts[j].account_key@ by {
        if j != i {
            assert(new_accounts[j] == old_accounts[j]);
        }
    }
    lemma_position_same_keys(old_accounts, new_accounts, key, 0);
    assert(new_accounts[i].last_used_at == Some(trunc_seconds(now_ms as int) as i64));
}


/// The phases after `auth.json` has been replaced by the target's snapshot.
pub open spec fn past_copy(p: SwitchPhase) -> bool {
    p == SwitchPhase::ReadClock || p == SwitchPhase::SaveRegistry || p == SwitchPhase::Finished(Ok(()))
}

/// A switch starts before the copy.
pub proof fn lemma_switch_begins_before_copy(codex_home: Seq<char>, key: Seq<char>, registry: RegistryData, s: SwitchState)
    requires
        switch_start_spec(codex_home, key, registry, s),
    ensures
        !past_copy(s.phase),
{
}

/// The only step into the phases after the copy is the successful completion of the copy
/// of the target's snapshot over `auth.json`: a switch can only succeed once `auth.json`
/// holds the target account's credentials.
pub proof fn lemma_success_follows_copy(s: SwitchState, e: SwitchEvent, t: SwitchState)
    requires
        switch_step_spec(s, e, t),
        !past_copy(s.phase),
        past_copy(t.phase),
    ensures
        s.phase == SwitchPhase::CopySnapshot,
        e == SwitchEvent::Completed(Ok(())),
        forall|a: SwitchAction| switch_action_spec(s, a) ==> (a matches SwitchAction::Copy { from, to }
            && from@ == account_auth_path_of(s.codex_home@, s.account_key@) && to@
            == active_auth_path_of(s.codex_home@)),
{
    match (s.phase, e) {
        (SwitchPhase::CopySnapshot, SwitchEvent::Completed(result)) => {
            match result {
                Ok(u) => {
                    assert(u == ());
                },
                Err(err) => {
                    assert(t.phase == SwitchPhase::Finished(Err(err)));
                },
            }
        },
        _ => {},
    }
}

/// The panel of the registry that a successful switch saved names the requested account as
/// active, and marks as active exactly the accounts with that key.
pub proof fn lemma_switch_panel(
    initial: RegistryData,
    s: SwitchState,
    v: PanelView,
    snapshots: Seq<bool>,
    now_seconds: i64,
)
    requires
        switch_invariant(initial, s),
        s.phase == SwitchPhase::Finished(Ok(())),
        is_panel_of(v, s.codex_home@, s.registry, snapshots, now_seconds),
    ensures
        v.active_account_key == Some(s.account_key@),
        forall|k: int| 0 <= k < v.accounts.len() ==> (#[trigger] v.accounts[k].is_active <==> v.accounts[k].account_key
            == s.account_key@),
{
    lemma_switch_success(initial, s);
    let src = registry_summaries(s.registry, snapshots, now_seconds);
    let perm = choose|perm: Seq<int>| stable_rank_sort_by(v.accounts, src, perm);
    assert forall|k: int| 0 <= k < v.accounts.len() implies (#[trigger] v.accounts[k].is_active <==> v.accounts[k].account_key
        == s.account_key@) by {
        assert(v.accounts[k] == src[perm[k]]);
    }
}

/// Once the current `auth.json` has been read, a switch saves it over a snapshot only when
/// its record key is present and equal to the active account's key, and then over that
/// account's own snapshot; with no record key, or another one, it goes on to probe the
/// target's snapshot and asks for no copy.
pub proof fn lemma_sync_only_the_active_accounts_own_file(s: SwitchState, rk: Option<String>, t: SwitchState, a: SwitchAction)
    requires
        s.phase == SwitchPhase::ReadActiveAuth,
        switch_step_spec(s, SwitchEvent::RecordKey(rk), t),
        switch_action_spec(t, a),
    ensures
        t.registry == s.registry,
        (t.phase is SyncSnapshot) <==> (rk matches Some(k) && s.registry.active_account_key matches Some(
            active,
        ) && k@ == active@),
        t.phase matches SwitchPhase::SyncSnapshot(target) ==> (s.registry.active_account_key matches Some(
            active,
        ) && target@ == account_auth_path_of(s.codex_home@, active@)),
        t.phase matches SwitchPhase::SyncSnapshot(target) ==> (a matches SwitchAction::Copy { from, to }
            && from@ == active_auth_path_of(s.codex_home@) && to == target),
        !(t.phase is SyncSnapshot) ==> t.phase == SwitchPhase::ProbeSnapshot,
        t.phase == SwitchPhase::ProbeSnapshot ==> (a matches SwitchAction::CheckExists { path }
            && path@ == account_auth_path_of(s.codex_home@, s.account_key@)),
        rk is None ==> t.phase == SwitchPhase::ProbeSnapshot,
{
}

/// A switch to `key` at `now_ms` makes `key` the active account, activated then; it keeps
/// the accounts, their number and order, and changes only the first account with that key,
/// whose last use becomes `now_ms` in seconds; the settings stay as they were.
pub proof fn lemma_switch_touches_only_the_target(old: RegistryData, new: RegistryData, key: Seq<char>, now_ms: i64)
    requires
        is_switched(old, new, key, now_ms),
    ensures
        new.active_account_key matches Some(k) && k@ == key,
        new.active_account_activated_at_ms == Some(now_ms),
        new.accounts@.len() == old.accounts@.len(),
        forall|j: int|
            0 <= j < old.accounts@.len() && (old.accounts@[j].account_key@ != key || exists|i: int|
                0 <= i < j && old.accounts@[i].account_key@ == key) ==> #[trigger] new.accounts@[j]
                == old.accounts@[j],
        forall|j: int|
            0 <= j < old.accounts@.len() && old.accounts@[j].account_key@ == key && (forall|i: int|
                0 <= i < j ==> old.accounts@[i].account_key@ != key) ==> (#[trigger] new.accounts@[j]
                == AccountRecord {
                last_used_at: Some(trunc_seconds(now_ms as int) as i64),
                ..old.accounts@[j]
            }),
        new.auto_switch == old.auto_switch,
        new.api == old.api,
{
    lemma_position_from(old.accounts@, key, 0);
}

} // verus!
