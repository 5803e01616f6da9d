//! What the menu-bar panel shows: one summary per account, the active ones first, then by
//! e-mail.
use vstd::prelude::*;
use vstd::string::*;
use crate::model::{AccountRecord, RateLimitSnapshot, RateLimitWindow, RegistryData};
use crate::paths::{registry_path, registry_path_of};
use crate::text::{
    bytes_lt, concat3, copy_opt, is_blank, lemma_bytes_lt_irreflexive, lemma_bytes_lt_total,
    lemma_bytes_lt_transitive, opt_view, text_less, text_lt, trim, trimmed,
};

verus! {

/// One account as the panel lists it.
#[derive(Debug)]
pub struct AccountSummary {
    pub account_key: String,
    pub email: String,
    pub alias: String,
    pub account_name: Option<String>,
    pub display_name: String,
    pub plan: Option<String>,
    pub is_active: bool,
    pub usage_5h_remaining: Option<i32>,
    pub usage_weekly_remaining: Option<i32>,
    pub has_auth_snapshot: bool,
    pub last_used_at: Option<i64>,
}

/// `AccountSummary` as texts.
pub struct SummaryView {
    pub account_key: Seq<char>,
    pub email: Seq<char>,
    pub alias: Seq<char>,
    pub account_name: Option<Seq<char>>,
    pub display_name: Seq<char>,
    pub plan: Option<Seq<char>>,
    pub is_active: bool,
    pub usage_5h_remaining: Option<i32>,
    pub usage_weekly_remaining: Option<i32>,
    pub has_auth_snapshot: bool,
    pub last_used_at: Option<i64>,
}

impl View for AccountSummary {
    type V = SummaryView;

    open spec fn view(&self) -> SummaryView {
        SummaryView {
            account_key: self.account_key@,
            email: self.email@,
            alias: self.alias@,
            account_name: opt_view(self.account_name),
            display_name: self.display_name@,
            plan: opt_view(self.plan),
            is_active: self.is_active,
            usage_5h_remaining: self.usage_5h_remaining,
            usage_weekly_remaining: self.usage_weekly_remaining,
            has_auth_snapshot: self.has_auth_snapshot,
            last_used_at: self.last_used_at,
        }
    }
}

/// The whole panel.
#[derive(Debug)]
pub struct PanelState {
    pub codex_home: String,
    pub registry_path: String,
    pub has_registry: bool,
    pub active_account_key: Option<String>,
    pub auto_switch_enabled: bool,
    pub api_usage_enabled: bool,
    pub accounts: Vec<AccountSummary>,
}

/// `PanelState` as texts.
pub struct PanelView {
    pub codex_home: Seq<char>,
    pub registry_path: Seq<char>,
    pub has_registry: bool,
    pub active_account_key: Option<Seq<char>>,
    pub auto_switch_enabled: bool,
    pub api_usage_enabled: bool,
    pub accounts: Seq<SummaryView>,
}

pub open spec fn summary_views(s: Seq<AccountSummary>) -> Seq<SummaryView> {
    Seq::new(s.len(), |i: int| s[i]@)
}

impl View for PanelState {
    type V = PanelView;

    open spec fn view(&self) -> PanelView {
        PanelView {
            codex_home: self.codex_home@,
            registry_path: self.registry_path@,
            has_registry: self.has_registry,
            active_account_key: opt_view(self.active_account_key),
            auto_switch_enabled: self.auto_switch_enabled,
            api_usage_enabled: self.api_usage_enabled,
            accounts: summary_views(self.accounts@),
        }
    }
}

pub open spec fn covers(w: Option<RateLimitWindow>, minutes: i64) -> bool {
    w matches Some(x) && x.window_minutes == Some(minutes)
}

/// The window of `minutes` length: the primary or secondary one that declares it, else the
/// primary (when `fallback_primary`) or the secondary one.
pub open spec fn resolved_window(s: RateLimitSnapshot, minutes: i64, fallback_primary: bool) -> Option<
    RateLimitWindow,
> {
    if covers(s.primary, minutes) {
        s.primary
    } else if covers(s.secondary, minutes) {
        s.secondary
    } else if fallback_primary {
        s.primary
    } else {
        s.secondary
    }
}

/// Picks the usage window of the given length from a snapshot.
pub fn resolve_window(snapshot: &RateLimitSnapshot, window_minutes: i64, fallback_primary: bool) -> (r: Option<&RateLimitWindow>)
    ensures
        match r {
            Some(w) => resolved_window(*snapshot, window_minutes, fallback_primary) == Some(*w),
            None => resolved_window(*snapshot, window_minutes, fallback_primary) is None,
        },
{
    if let Some(w) = &snapshot.primary {
        if w.window_minutes == Some(window_minutes) {
            return Some(w);
        }
    }
    if let Some(w) = &snapshot.secondary {
        if w.window_minutes == Some(window_minutes) {
            return Some(w);
        }
    }
    if fallback_primary {
        snapshot.primary.as_ref()
    } else {
        snapshot.secondary.as_ref()
    }
}

/// The percentage left in a window at `now_seconds`: all of it once the window has reset,
/// else the estimate held to `0..=100`.
pub open spec fn remaining_of(w: RateLimitWindow, now_seconds: i64) -> i32 {
    if w.resets_at matches Some(t) && t <= now_seconds {
        100
    } else if w.remaining_estimate < 0 {
        0
    } else if w.remaining_estimate > 100 {
        100
    } else {
        w.remaining_estimate
    }
}

/// What is left of a window, in percent.
pub fn remaining_percent(window: &RateLimitWindow, now_seconds: i64) -> (r: i32)
    ensures
        r == remaining_of(*window, now_seconds),
        0 <= r <= 100,
{
    if let Some(t) = window.resets_at {
        if t <= now_seconds {
            return 100;
        }
    }
    let e: i32 = window.remaining_estimate;
    if e < 0 {
        0
    } else if e > 100 {
        100
    } else {
        e
    }
}

/// The remaining percentage of an account's window of `minutes`, if it has usage and such a
/// window.
pub open spec fn usage_of(acc: AccountRecord, minutes: i64, fallback_primary: bool, now_seconds: i64) -> Option<i32> {
    match acc.last_usage {
        Some(s) => match resolved_window(s, minutes, fallback_primary) {
            Some(w) => Some(remaining_of(w, now_seconds)),
            None => None,
        },
        None => None,
    }
}

fn usage(account: &AccountRecord, minutes: i64, fallback_primary: bool, now_seconds: i64) -> (r: Option<i32>)
    ensures
        r == usage_of(*account, minutes, fallback_primary, now_seconds),
{
    match &account.last_usage {
        Some(s) => match resolve_window(s, minutes, fallback_primary) {
            Some(w) => Some(remaining_percent(w, now_seconds)),
            None => None,
        },
        None => None,
    }
}

/// `email · alias` when the alias is not blank, else `email · account name` when that is not
/// blank, else the e-mail; alias and name are trimmed.
pub open spec fn display_name_of(acc: AccountRecord) -> Seq<char> {
    if trimmed(acc.alias@).len() > 0 {
        acc.email@ + " \u{b7} "@ + trimmed(acc.alias@)
    } else if acc.account_name matches Some(n) && trimmed(n@).len() > 0 {
        acc.email@ + " \u{b7} "@ + trimmed(acc.account_name.unwrap()@)
    } else {
        acc.email@
    }
}

/// The name under which the panel shows an account.
pub fn display_name(account: &AccountRecord) -> (r: String)
    ensures
        r@ == display_name_of(*account),
{
    if !is_blank(account.alias.as_str()) {
        return concat3(account.email.as_str(), " \u{b7} ", trim(account.alias.as_str()));
    }
    if let Some(name) = &account.account_name {
        if !is_blank(name.as_str()) {
            return concat3(account.email.as_str(), " \u{b7} ", trim(name.as_str()));
        }
    }
    account.email.clone()
}

/// The plan of an account: its own, else the one its last usage reported.
pub open spec fn plan_of(acc: AccountRecord) -> Option<Seq<char>> {
    match acc.plan {
        Some(p) => Some(p@),
        None => match acc.last_usage {
            Some(s) => opt_view(s.plan_type),
            None => None,
        },
    }
}

/// The summary of one account; `active` is the active account's key.
pub open spec fn summary_of(
    active: Option<Seq<char>>,
    acc: AccountRecord,
    has_auth_snapshot: bool,
    now_seconds: i64,
) -> SummaryView {
    SummaryView {
        account_key: acc.account_key@,
        email: acc.email@,
        alias: acc.alias@,
        account_name: opt_view(acc.account_name),
        display_name: display_name_of(acc),
        plan: plan_of(acc),
        is_active: active == Some(acc.account_key@),
        usage_5h_remaining: usage_of(acc, 300, true, now_seconds),
        usage_weekly_remaining: usage_of(acc, 10080, false, now_seconds),
        has_auth_snapshot: has_auth_snapshot,
        last_used_at: acc.last_used_at,
    }
}

/// Summarises an account. `has_auth_snapshot` says whether its snapshot file exists.
pub fn account_summary(
    active_account_key: Option<&str>,
    account: &AccountRecord,
    has_auth_snapshot: bool,
    now_seconds: i64,
) -> (r: AccountSummary)
    ensures
        r@ == summary_of(
            match active_account_key {
                Some(k) => Some(k@),
                None => None,
            },
            *account,
            has_auth_snapshot,
            now_seconds,
        ),
{
    let plan = match &account.plan {
        Some(p) => Some(p.clone()),
        None => match &account.last_usage {
            Some(s) => copy_opt(&s.plan_type),
            None => None,
        },
    };
    let is_active = match active_account_key {
        Some(k) => crate::text::same_text(k, account.account_key.as_str()),
        None => false,
    };
    AccountSummary {
        account_key: account.account_key.clone(),
        email: account.email.clone(),
        alias: account.alias.clone(),
        account_name: copy_opt(&account.account_name),
        display_name: display_name(account),
        plan,
        is_active,
        usage_5h_remaining: usage(account, 300, true, now_seconds),
        usage_weekly_remaining: usage(account, 10080, false, now_seconds),
        has_auth_snapshot,
        last_used_at: account.last_used_at,
    }
}

/// `x` is listed before `y`: an active account before an inactive one, else the smaller
/// e-mail first.
pub open spec fn rank_before(x: SummaryView, y: SummaryView) -> bool {
    (x.is_active && !y.is_active) || (x.is_active == y.is_active && text_lt(x.email, y.email))
}

/// Neither of `x` and `y` is listed before the other for its own sake.
pub open spec fn same_rank(x: SummaryView, y: SummaryView) -> bool {
    x.is_active == y.is_active && x.email == y.email
}

pub proof fn lemma_rank_irreflexive(x: SummaryView)
    ensures
        !rank_before(x, x),
{
    lemma_bytes_lt_irreflexive(vstd::utf8::encode_utf8(x.email));
}

pub proof fn lemma_rank_transitive(a: SummaryView, b: SummaryView, c: SummaryView)
    requires
        rank_before(a, b),
        rank_before(b, c),
    ensures
        rank_before(a, c),
{
    if a.is_active == b.is_active && b.is_active == c.is_active {
        lemma_bytes_lt_transitive(
            vstd::utf8::encode_utf8(a.email),
            vstd::utf8::encode_utf8(b.email),
            vstd::utf8::encode_utf8(c.email),
        );
    }
}

pub proof fn lemma_rank_total(a: SummaryView, b: SummaryView)
    ensures
        rank_before(a, b) || rank_before(b, a) || same_rank(a, b),
{
    let ea = vstd::utf8::encode_utf8(a.email);
    let eb = vstd::utf8::encode_utf8(b.email);
    lemma_bytes_lt_total(ea, eb);
    if ea =~= eb {
        vstd::utf8::encode_utf8_decode_utf8(a.email);
        vstd::utf8::encode_utf8_decode_utf8(b.email);
    }
}

/// `perm` is a permutation of `0..n`.
pub open spec fn is_index_perm(perm: Seq<int>, n: int) -> bool {
    &&& perm.len() == n
    &&& forall|k: int| 0 <= k < n ==> 0 <= #[trigger] perm[k] < n
    &&& forall|k: int, l: int| 0 <= k < l < n ==> perm[k] != perm[l]
    &&& forall|j: int| 0 <= j < n ==> #[trigger] takes_value(perm, n, j)
}

/// Some place among the first `n` of `perm` holds `j`.
pub open spec fn takes_value(perm: Seq<int>, n: int, j: int) -> bool {
    exists|k: int| 0 <= k < n && #[trigger] perm[k] == j
}

/// `r` is `s` rearranged by `perm`, sorted by rank, with accounts of equal rank in their
/// order in `s`.
pub open spec fn stable_rank_sort_by(r: Seq<SummaryView>, s: Seq<SummaryView>, perm: Seq<int>) -> bool {
    &&& r.len() == s.len()
    &&& is_index_perm(perm, s.len() as int)
    &&& forall|k: int| 0 <= k < r.len() ==> r[k] == s[#[trigger] perm[k]]
    &&& forall|k: int, l: int| 0 <= k < l < r.len() ==> !rank_before(#[trigger] r[l], #[trigger] r[k])
    &&& forall|k: int, l: int|
        0 <= k < l < r.len() && same_rank(#[trigger] r[k], #[trigger] r[l]) ==> perm[k] < perm[l]
}

/// `r` is the stable sort of `s` by rank.
pub open spec fn is_stable_rank_sort(r: Seq<SummaryView>, s: Seq<SummaryView>) -> bool {
    exists|perm: Seq<int>| stable_rank_sort_by(r, s, perm)
}

fn rank_less(a: &AccountSummary, b: &AccountSummary) -> (r: bool)
    ensures
        r == rank_before(a@, b@),
{
    (a.is_active && !b.is_active) || (a.is_active == b.is_active && text_less(
        a.email.as_str(),
        b.email.as_str(),
    ))
}

/// Whether account `i` has a snapshot, as the list of snapshot checks says; a missing entry
/// counts as no snapshot.
pub open spec fn has_snapshot_at(snapshots: Seq<bool>, i: int) -> bool {
    0 <= i < snapshots.len() && snapshots[i]
}

/// The summaries of the registry's accounts in registry order.
pub open spec fn registry_summaries(registry: RegistryData, snapshots: Seq<bool>, now_seconds: i64) -> Seq<
    SummaryView,
> {
    Seq::new(
        registry.accounts@.len(),
        |i: int|
            summary_of(
                opt_view(registry.active_account_key),
                registry.accounts@[i],
                has_snapshot_at(snapshots, i),
                now_seconds,
            ),
    )
}

/// The summaries sorted: active accounts first, then by e-mail, equal ones in registry order.
fn sorted_summaries(registry: &RegistryData, snapshots: &Vec<bool>, now_seconds: i64) -> (r: Vec<
    AccountSummary,
>)
    ensures
        is_stable_rank_sort(summary_views(r@), registry_summaries(*registry, snapshots@, now_seconds)),
{
    let ghost src = registry_summaries(*registry, snapshots@, now_seconds);
    let active: Option<&str> = match &registry.active_account_key {
        Some(k) => Some(k.as_str()),
        None => None,
    };
    let n: usize = registry.accounts.len();
    let mut out: Vec<AccountSummary> = Vec::new();
    let ghost mut perm: Seq<int> = Seq::empty();
    let mut i: usize = 0;
    while i < n
        invariant
            n == registry.accounts@.len(),
            src == registry_summaries(*registry, snapshots@, now_seconds),
            match active {
                Some(k) => opt_view(registry.active_account_key) == Some(k@),
                None => registry.active_account_key is None,
            },
            i <= n,
            out@.len() == i,
            perm.len() == i,
            forall|k: int| 0 <= k < i ==> 0 <= #[trigger] perm[k] < i,
            forall|k: int, l: int| 0 <= k < l < i ==> perm[k] != perm[l],
            forall|j: int| 0 <= j < i ==> #[trigger] takes_value(perm, i as int, j),
            forall|k: int| 0 <= k < i ==> out@[k]@ == src[#[trigger] perm[k]],
            forall|k: int, l: int| 0 <= k < l < i ==> !rank_before(#[trigger] out@[l]@, #[trigger] out@[k]@),
            forall|k: int, l: int|
                0 <= k < l < i && same_rank(#[trigger] out@[k]@, #[trigger] out@[l]@) ==> perm[k] < perm[l],
        decreases n - i,
    {
        let has = i < snapshots.len() && snapshots[i];
        let x = account_summary(active, &registry.accounts[i], has, now_seconds);
        assert(x@ == src[i as int]);
        let mut p: usize = 0;
        while p < out.len()
            invariant
                p <= out@.len(),
                forall|q: int| 0 <= q < p ==> !rank_before(x@, #[trigger] out@[q]@),
            ensures
                p <= out@.len(),
                forall|q: int| 0 <= q < p ==> !rank_before(x@, #[trigger] out@[q]@),
                p < out@.len() ==> rank_before(x@, out@[p as int]@),
            decreases out@.len() - p,
        {
            if rank_less(&x, &out[p]) {
                break;
            }
            p = p + 1;
        }
        let ghost old_out = out@;
        let ghost old_perm = perm;
        let ghost xv = x@;
        out.insert(p, x);
        proof {
            perm = old_perm.insert(p as int, i as int);
            let pi: int = p as int;
            assert forall|j: int| 0 <= j < i + 1 implies #[trigger] takes_value(perm, i + 1, j) by {
                if j == i {
                    assert(perm[pi] == j);
                } else {
                    assert(takes_value(old_perm, i as int, j));
                    let k0 = choose|k: int| 0 <= k < i && #[trigger] old_perm[k] == j;
                    if k0 < pi {
                        assert(perm[k0] == j);
                    } else {
                        assert(perm[k0 + 1] == j);
                    }
                }
            }
            assert forall|k: int| 0 <= k < i + 1 implies out@[k]@ == src[#[trigger] perm[k]] by {
                if k < pi {
                    assert(out@[k] == old_out[k]);
                } else if k > pi {
                    assert(out@[k] == old_out[k - 1]);
                }
            }
            assert forall|k: int, l: int| 0 <= k < l < i + 1 implies !rank_before(
                #[trigger] out@[l]@,
                #[trigger] out@[k]@,
            ) by {
                if k < pi && l < pi {
                    assert(out@[k] == old_out[k] && out@[l] == old_out[l]);
                } else if k < pi && l == pi {
                    assert(out@[k] == old_out[k]);
                } else if k < pi && l > pi {
                    assert(out@[k] == old_out[k] && out@[l] == old_out[l - 1]);
                } else if k == pi {
                    let y = old_out[l - 1]@;
                    assert(out@[l] == old_out[l - 1]);
                    if rank_before(y, xv) {
                        lemma_rank_transitive(y, xv, old_out[pi]@);
                        if l - 1 == pi {
                            lemma_rank_irreflexive(y);
                        }
                    }
                } else {
                    assert(out@[k] == old_out[k - 1] && out@[l] == old_out[l - 1]);
                }
            }
            assert forall|k: int, l: int|
                0 <= k < l < i + 1 && same_rank(#[trigger] out@[k]@, #[trigger] out@[l]@) implies perm[k]
                < perm[l] by {
                if k < pi && l < pi {
                    assert(out@[k] == old_out[k] && out@[l] == old_out[l]);
                } else if k < pi && l > pi {
                    assert(out@[k] == old_out[k] && out@[l] == old_out[l - 1]);
                } else if k == pi {
                    let y = old_out[l - 1]@;
                    assert(out@[l] == old_out[l - 1]);
                    assert(rank_before(y, old_out[pi]@));
                    if l - 1 == pi {
                        lemma_rank_irreflexive(y);
                    }
                } else if k > pi {
                    assert(out@[k] == old_out[k - 1] && out@[l] == old_out[l - 1]);
                }
            }
        }
        i = i + 1;
    }
    proof {
        let r = summary_views(out@);
        assert(stable_rank_sort_by(r, src, perm));
    }
    out
}

/// Index `i` of `s` comes before index `j` in the stable order by rank.
pub open spec fn index_before(s: Seq<SummaryView>, i: int, j: int) -> bool {
    rank_before(s[i], s[j]) || (same_rank(s[i], s[j]) && i < j)
}

proof fn lemma_index_before_asymmetric(s: Seq<SummaryView>, i: int, j: int)
    requires
        index_before(s, i, j),
    ensures
        !index_before(s, j, i),
{
    lemma_rank_irreflexive(s[i]);
    lemma_rank_irreflexive(s[j]);
    if rank_before(s[i], s[j]) && rank_before(s[j], s[i]) {
        lemma_rank_transitive(s[i], s[j], s[i]);
    }
}

proof fn lemma_index_before_total(s: Seq<SummaryView>, i: int, j: int)
    requires
        i != j,
    ensures
        index_before(s, i, j) || index_before(s, j, i),
{
    lemma_rank_total(s[i], s[j]);
}

/// A stable sort lists the indices of `s` in increasing stable order.
proof fn lemma_sort_perm_increasing(r: Seq<SummaryView>, s: Seq<SummaryView>, perm: Seq<int>)
    requires
        stable_rank_sort_by(r, s, perm),
    ensures
        forall|k: int, l: int| 0 <= k < l < r.len() ==> index_before(s, #[trigger] perm[k], #[trigger] perm[l]),
{
    assert forall|k: int, l: int| 0 <= k < l < r.len() implies index_before(s, #[trigger] perm[k], #[trigger] perm[l]) by {
        assert(r[k] == s[perm[k]] && r[l] == s[perm[l]]);
        assert(!rank_before(r[l], r[k]));
        lemma_rank_total(r[k], r[l]);
    }
}

/// Two permutations that both list the indices of `s` in increasing stable order agree on
/// their first `k` places.
proof fn lemma_increasing_perms_agree(s: Seq<SummaryView>, p1: Seq<int>, p2: Seq<int>, k: int)
    requires
        is_index_perm(p1, s.len() as int),
        is_index_perm(p2, s.len() as int),
        forall|a: int, b: int| 0 <= a < b < s.len() ==> index_before(s, #[trigger] p1[a], #[trigger] p1[b]),
        forall|a: int, b: int| 0 <= a < b < s.len() ==> index_before(s, #[trigger] p2[a], #[trigger] p2[b]),
        0 <= k <= s.len(),
    ensures
        forall|m: int| 0 <= m < k ==> p1[m] == p2[m],
    decreases k,
{
    if k > 0 {
        lemma_increasing_perms_agree(s, p1, p2, k - 1);
        let m = k - 1;
        if p1[m] != p2[m] {
            lemma_index_before_total(s, p1[m], p2[m]);
            if index_before(s, p1[m], p2[m]) {
                assert(takes_value(p2, s.len() as int, p1[m]));
                let q = choose|q: int| 0 <= q < s.len() && #[trigger] p2[q] == p1[m];
                if q < m {
                    assert(p1[q] == p2[q]);
                } else if q > m {
                    assert(index_before(s, p2[m], p2[q]));
                    lemma_index_before_asymmetric(s, p1[m], p2[m]);
                }
            } else {
                assert(takes_value(p1, s.len() as int, p2[m]));
                let q = choose|q: int| 0 <= q < s.len() && #[trigger] p1[q] == p2[m];
                if q < m {
                    assert(p1[q] == p2[q]);
                } else if q > m {
                    assert(index_before(s, p1[m], p1[q]));
                    lemma_index_before_asymmetric(s, p2[m], p1[m]);
                }
            }
        }
    }
}

/// The stable sort by rank is unique: two stable sorts of the same summaries are equal.
pub proof fn lemma_stable_rank_sort_unique(r1: Seq<SummaryView>, r2: Seq<SummaryView>, s: Seq<SummaryView>)
    requires
        is_stable_rank_sort(r1, s),
        is_stable_rank_sort(r2, s),
    ensures
        r1 == r2,
{
    let p1 = choose|perm: Seq<int>| stable_rank_sort_by(r1, s, perm);
    let p2 = choose|perm: Seq<int>| stable_rank_sort_by(r2, s, perm);
    lemma_sort_perm_increasing(r1, s, p1);
    lemma_sort_perm_increasing(r2, s, p2);
    lemma_increasing_perms_agree(s, p1, p2, s.len() as int);
    assert forall|k: int| 0 <= k < r1.len() implies r1[k] == r2[k] by {
        assert(r1[k] == s[p1[k]]);
        assert(r2[k] == s[p2[k]]);
    }
    assert(r1 =~= r2);
}

/// `v` is the panel of `registry` under `home`, with the given snapshot checks and time.
pub open spec fn is_panel_of(
    v: PanelView,
    home: Seq<char>,
    registry: RegistryData,
    snapshots: Seq<bool>,
    now_seconds: i64,
) -> bool {
    &&& v.codex_home == home
    &&& v.registry_path == registry_path_of(home)
    &&& v.has_registry
    &&& v.active_account_key == opt_view(registry.active_account_key)
    &&& v.auto_switch_enabled == registry.auto_switch.enabled
    &&& v.api_usage_enabled == registry.api.usage
    &&& is_stable_rank_sort(v.accounts, registry_summaries(registry, snapshots, now_seconds))
}

/// The panel is determined by the Codex home, the registry, the snapshot checks and the
/// time: a panel loaded from a registry, one built from it directly, and one built again
/// after an operation that left the registry as it was, are all equal.
pub proof fn lemma_panel_determined(
    v1: PanelView,
    v2: PanelView,
    home: Seq<char>,
    registry: RegistryData,
    snapshots: Seq<bool>,
    now_seconds: i64,
)
    requires
        is_panel_of(v1, home, registry, snapshots, now_seconds),
        is_panel_of(v2, home, registry, snapshots, now_seconds),
    ensures
        v1 == v2,
{
    lemma_stable_rank_sort_unique(
        v1.accounts,
        v2.accounts,
        registry_summaries(registry, snapshots, now_seconds),
    );
}

/// The panel for a registry. `snapshots[i]` says whether the snapshot of the `i`-th account
/// exists; `now_seconds` is the current time.
pub fn panel_state_from_registry(
    codex_home: &str,
    registry: &RegistryData,
    snapshots: &Vec<bool>,
    now_seconds: i64,
) -> (r: PanelState)
    ensures
        is_panel_of(r@, codex_home@, *registry, snapshots@, now_seconds),
{
    let accounts = sorted_summaries(registry, snapshots, now_seconds);
    PanelState {
        codex_home: codex_home.to_owned(),
        registry_path: registry_path(codex_home),
        has_registry: true,
        active_account_key: copy_opt(&registry.active_account_key),
        auto_switch_enabled: registry.auto_switch.enabled,
        api_usage_enabled: registry.api.usage,
        accounts,
    }
}

/// The panel: from the registry when there is one, else an empty panel that says so.
pub fn load_panel_state(
    codex_home: &str,
    registry: Option<&RegistryData>,
    snapshots: &Vec<bool>,
    now_seconds: i64,
) -> (r: PanelState)
    ensures
        match registry {
            Some(reg) => is_panel_of(r@, codex_home@, *reg, snapshots@, now_seconds),
            None => {
                &&& r@.codex_home == codex_home@
                &&& r@.registry_path == registry_path_of(codex_home@)
                &&& !r@.has_registry
                &&& r@.active_account_key is None
                &&& !r@.auto_switch_enabled
                &&& r@.api_usage_enabled
                &&& r@.accounts.len() == 0
            },
        },
{
    match registry {
        Some(reg) => panel_state_from_registry(codex_home, reg, snapshots, now_seconds),
        None => PanelState {
            codex_home: codex_home.to_owned(),
            registry_path: registry_path(codex_home),
            has_registry: false,
            active_account_key: None,
            auto_switch_enabled: false,
            api_usage_enabled: true,
            accounts: Vec::new(),
        },
    }
}


/// Every active account is listed before every inactive one.
pub proof fn lemma_active_accounts_first(r: Seq<SummaryView>, s: Seq<SummaryView>, k: int, l: int)
    requires
        is_stable_rank_sort(r, s),
        0 <= k < l < r.len(),
        r[l].is_active,
    ensures
        r[k].is_active,
{
    let perm = choose|perm: Seq<int>| stable_rank_sort_by(r, s, perm);
    assert(!rank_before(r[l], r[k]));
}

/// The panel names an account by its e-mail, then ` · ` and its trimmed alias when that
/// is not blank, whatever its account name; only without an alias does a non-blank account
/// name take that place; with neither the name is the bare e-mail.
pub proof fn lemma_alias_names_the_account_first(acc: AccountRecord)
    ensures
        trimmed(acc.alias@).len() > 0 ==> display_name_of(acc) == acc.email@ + " \u{b7} "@ + trimmed(
            acc.alias@,
        ),
        trimmed(acc.alias@).len() == 0 && acc.account_name is Some && trimmed(
            acc.account_name.unwrap()@,
        ).len() > 0 ==> display_name_of(acc) == acc.email@ + " \u{b7} "@ + trimmed(
            acc.account_name.unwrap()@,
        ),
        trimmed(acc.alias@).len() == 0 && (acc.account_name is None || trimmed(
            acc.account_name.unwrap()@,
        ).len() == 0) ==> display_name_of(acc) == acc.email@,
{
}

/// What is left of a window: everything once its reset time has come, otherwise the
/// estimate, raised to 0 when below and lowered to 100 when above.
pub proof fn lemma_remaining_is_the_clamped_estimate(w: RateLimitWindow, now_seconds: i64)
    ensures
        0 <= remaining_of(w, now_seconds) <= 100,
        (w.resets_at matches Some(t) && t <= now_seconds) ==> remaining_of(w, now_seconds) == 100,
        !(w.resets_at matches Some(t) && t <= now_seconds) && 0 <= w.remaining_estimate <= 100
            ==> remaining_of(w, now_seconds) == w.remaining_estimate,
        !(w.resets_at matches Some(t) && t <= now_seconds) && w.remaining_estimate < 0 ==> remaining_of(
            w,
            now_seconds,
        ) == 0,
        !(w.resets_at matches Some(t) && t <= now_seconds) && w.remaining_estimate > 100 ==> remaining_of(
            w,
            now_seconds,
        ) == 100,
{
}

/// A panel lists one summary per account of the registry; a summary is marked active
/// exactly when its key is the registry's active key; and among the active accounts, as
/// among the others, the e-mails come in order.
pub proof fn lemma_panel_lists_each_account(
    v: PanelView,
    home: Seq<char>,
    registry: RegistryData,
    snapshots: Seq<bool>,
    now_seconds: i64,
)
    requires
        is_panel_of(v, home, registry, snapshots, now_seconds),
    ensures
        v.accounts.len() == registry.accounts@.len(),
        forall|k: int|
            0 <= k < v.accounts.len() ==> (#[trigger] v.accounts[k]).is_active == (
            v.active_account_key == Some(v.accounts[k].account_key)),
        forall|k: int|
            0 <= k < v.accounts.len() ==> exists|i: int|
                0 <= i < registry.accounts@.len() && (#[trigger] v.accounts[k]).account_key
                    == registry.accounts@[i].account_key@,
        forall|k: int, l: int|
            0 <= k < l < v.accounts.len() && (#[trigger] v.accounts[k]).is_active == (
            #[trigger] v.accounts[l]).is_active ==> !text_lt(v.accounts[l].email, v.accounts[k].email),
{
    let s = registry_summaries(registry, snapshots, now_seconds);
    let perm = choose|perm: Seq<int>| stable_rank_sort_by(v.accounts, s, perm);
    assert forall|k: int| 0 <= k < v.accounts.len() implies exists|i: int|
        0 <= i < registry.accounts@.len() && (#[trigger] v.accounts[k]).account_key
            == registry.accounts@[i].account_key@ by {
        assert(v.accounts[k] == s[perm[k]]);
    }
    assert forall|k: int| 0 <= k < v.accounts.len() implies (#[trigger] v.accounts[k]).is_active == (
    v.active_account_key == Some(v.accounts[k].account_key)) by {
        assert(v.accounts[k] == s[perm[k]]);
    }
    assert forall|k: int, l: int|
        0 <= k < l < v.accounts.len() && (#[trigger] v.accounts[k]).is_active == (
        #[trigger] v.accounts[l]).is_active implies !text_lt(v.accounts[l].email, v.accounts[k].email) by {
        assert(!rank_before(v.accounts[l], v.accounts[k]));
    }
}

} // verus!
