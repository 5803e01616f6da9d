//! Where the account files live under the Codex home directory. Paths are text with `/` as
//! separator and follow the rules of Unix paths.
use vstd::prelude::*;
use vstd::string::*;
use crate::base64url::{b64url_encode, encode_url_safe, is_url_safe_symbol, lemma_encoding_alphabet};
use crate::model::SwitchyardError;
use crate::text::{concat2, concat3, is_blank, trimmed};

verus! {

/// `base` with `name` appended as a further component: a separator comes between them
/// unless `base` is empty or already ends in one.
pub open spec fn push_path(base: Seq<char>, name: Seq<char>) -> Seq<char> {
    if base.len() == 0 {
        name
    } else if base.last() == '/' {
        base + name
    } else {
        base + seq!['/'] + name
    }
}

/// `base` joined with `comp`: an absolute `comp` replaces `base`, a relative one is pushed.
pub open spec fn join_path(base: Seq<char>, comp: Seq<char>) -> Seq<char> {
    if comp.len() > 0 && comp[0] == '/' {
        comp
    } else {
        push_path(base, comp)
    }
}

fn push(base: &str, name: &str) -> (r: String)
    ensures
        r@ == push_path(base@, name@),
{
    let n: usize = base.unicode_len();
    if n == 0 {
        name.to_owned()
    } else if base.get_char(n - 1) == '/' {
        concat2(base, name)
    } else {
        proof {
            reveal_strlit("/");
        }
        concat3(base, "/", name)
    }
}

/// Joins `comp` onto `base`, as `Path::join` does.
pub fn join(base: &str, comp: &str) -> (r: String)
    ensures
        r@ == join_path(base@, comp@),
{
    let n: usize = comp.unicode_len();
    if n > 0 && comp.get_char(0) == '/' {
        return comp.to_owned();
    }
    push(base, comp)
}

pub open spec fn accounts_dir_of(home: Seq<char>) -> Seq<char> {
    join_path(home, "accounts"@)
}

pub open spec fn registry_path_of(home: Seq<char>) -> Seq<char> {
    join_path(accounts_dir_of(home), "registry.json"@)
}

pub open spec fn active_auth_path_of(home: Seq<char>) -> Seq<char> {
    join_path(home, "auth.json"@)
}

/// `<home>/accounts`, the directory of the registry and the account snapshots.
pub fn accounts_dir(codex_home: &str) -> (r: String)
    ensures
        r@ == accounts_dir_of(codex_home@),
{
    join(codex_home, "accounts")
}

/// `<home>/accounts/registry.json`.
pub fn registry_path(codex_home: &str) -> (r: String)
    ensures
        r@ == registry_path_of(codex_home@),
{
    let dir = accounts_dir(codex_home);
    join(dir.as_str(), "registry.json")
}

/// `<home>/auth.json`, the credentials that Codex uses now.
pub fn active_auth_path(codex_home: &str) -> (r: String)
    ensures
        r@ == active_auth_path_of(codex_home@),
{
    join(codex_home, "auth.json")
}

/// A character that an account key may keep in its file name.
pub open spec fn is_plain_key_char(c: char) -> bool {
    ||| ('a' <= c && c <= 'z')
    ||| ('A' <= c && c <= 'Z')
    ||| ('0' <= c && c <= '9')
    ||| c == '-'
    ||| c == '_'
    ||| c == '.'
}

pub open spec fn is_plain_key(k: Seq<char>) -> bool {
    forall|i: int| 0 <= i < k.len() ==> is_plain_key_char(#[trigger] k[i])
}

/// The file name stem of an account: the key itself when it is made of plain characters
/// and is not empty, `.` or `..`; otherwise the unpadded URL-safe base64 of its UTF-8 bytes.
pub open spec fn file_key_of(k: Seq<char>) -> Seq<char> {
    if k.len() == 0 || k == seq!['.'] || k == seq!['.', '.'] || !is_plain_key(k) {
        b64url_encode(vstd::utf8::encode_utf8(k))
    } else {
        k
    }
}

/// The name under which an account's snapshot is stored.
pub fn account_file_key(account_key: &str) -> (r: String)
    ensures
        r@ == file_key_of(account_key@),
{
    let n: usize = account_key.unicode_len();
    let special = n == 0 || (n == 1 && account_key.get_char(0) == '.') || (n == 2
        && account_key.get_char(0) == '.' && account_key.get_char(1) == '.');
    if special {
        assert(n == 1 && account_key@[0] == '.' ==> account_key@ =~= seq!['.']);
        assert(n == 2 && account_key@[0] == '.' && account_key@[1] == '.' ==> account_key@
            =~= seq!['.', '.']);
        return encode_url_safe(account_key.as_bytes());
    }
    assert(account_key@ != seq!['.']) by {
        if n == 1 && account_key@ == seq!['.'] {
            assert(account_key@[0] == '.');
        }
    }
    assert(account_key@ != seq!['.', '.']) by {
        if n == 2 && account_key@ == seq!['.', '.'] {
            assert(account_key@[0] == '.' && account_key@[1] == '.');
        }
    }
    let mut i: usize = 0;
    while i < n
        invariant
            n == account_key@.len(),
            i <= n,
            forall|j: int| 0 <= j < i ==> is_plain_key_char(#[trigger] account_key@[j]),
        decreases n - i,
    {
        let c = account_key.get_char(i);
        let plain = ('a' <= c && c <= 'z') || ('A' <= c && c <= 'Z') || ('0' <= c && c <= '9')
            || c == '-' || c == '_' || c == '.';
        if !plain {
            return encode_url_safe(account_key.as_bytes());
        }
        i = i + 1;
    }
    account_key.to_owned()
}

pub open spec fn account_auth_path_of(home: Seq<char>, key: Seq<char>) -> Seq<char> {
    join_path(accounts_dir_of(home), file_key_of(key) + ".auth.json"@)
}

/// `<home>/accounts/<file key>.auth.json`, the snapshot of an account's credentials.
pub fn account_auth_path(codex_home: &str, account_key: &str) -> (r: String)
    ensures
        r@ == account_auth_path_of(codex_home@, account_key@),
{
    let dir = accounts_dir(codex_home);
    let stem = account_file_key(account_key);
    let name = concat2(stem.as_str(), ".auth.json");
    join(dir.as_str(), name.as_str())
}

/// `p` without trailing separators and trailing `.` components; a lone leading `/` or `.`
/// stays.
pub open spec fn tail_trim(p: Seq<char>) -> Seq<char>
    decreases p.len(),
{
    if p.len() > 1 && p.last() == '/' {
        tail_trim(p.drop_last())
    } else if p.len() >= 2 && p.last() == '.' && p[p.len() - 2] == '/' {
        tail_trim(p.drop_last())
    } else {
        p
    }
}

/// Where the last component of `q` starts: just after its last separator.
pub open spec fn seg_start(q: Seq<char>) -> int
    decreases q.len(),
{
    if q.len() == 0 {
        0
    } else if q.last() == '/' {
        q.len() as int
    } else {
        seg_start(q.drop_last())
    }
}

/// The last component of `p` when it is a name: not `..`, not the root, not empty.
pub open spec fn file_name_of(p: Seq<char>) -> Option<Seq<char>> {
    let q = tail_trim(p);
    let seg = q.subrange(seg_start(q), q.len() as int);
    if seg.len() == 0 || seg == seq!['.'] || seg == seq!['.', '.'] {
        None
    } else {
        Some(seg)
    }
}

/// `p` with its file name replaced by `name`, or `name` pushed when it has none.
pub open spec fn with_file_name_of(p: Seq<char>, name: Seq<char>) -> Seq<char> {
    let q = tail_trim(p);
    match file_name_of(p) {
        Some(_) => push_path(tail_trim(q.subrange(0, seg_start(q))), name),
        None => push_path(p, name),
    }
}

/// The length of `tail_trim` of the first `end` characters of `p`.
fn trimmed_end(p: &str, end: usize) -> (r: usize)
    requires
        end <= p@.len(),
    ensures
        r <= end,
        p@.subrange(0, r as int) == tail_trim(p@.subrange(0, end as int)),
{
    let mut j: usize = end;
    loop
        invariant
            j <= end <= p@.len(),
            tail_trim(p@.subrange(0, end as int)) == tail_trim(p@.subrange(0, j as int)),
        ensures
            j <= end,
            tail_trim(p@.subrange(0, end as int)) == p@.subrange(0, j as int),
        decreases j,
    {
        let ghost q = p@.subrange(0, j as int);
        if j > 1 && p.get_char(j - 1) == '/' {
            assert(q.drop_last() =~= p@.subrange(0, j - 1));
            j = j - 1;
        } else if j >= 2 && p.get_char(j - 1) == '.' && p.get_char(j - 2) == '/' {
            assert(q.drop_last() =~= p@.subrange(0, j - 1));
            j = j - 1;
        } else {
            assert(tail_trim(q) == q);
            break;
        }
    }
    j
}

/// `seg_start` of the first `end` characters of `p`.
fn segment_start(p: &str, end: usize) -> (r: usize)
    requires
        end <= p@.len(),
    ensures
        r <= end,
        r == seg_start(p@.subrange(0, end as int)),
{
    let mut k: usize = end;
    loop
        invariant
            k <= end <= p@.len(),
            seg_start(p@.subrange(0, end as int)) == seg_start(p@.subrange(0, k as int)),
        ensures
            k <= end,
            seg_start(p@.subrange(0, end as int)) == k,
        decreases k,
    {
        let ghost q = p@.subrange(0, k as int);
        if k == 0 {
            break;
        }
        if p.get_char(k - 1) == '/' {
            break;
        }
        assert(q.drop_last() =~= p@.subrange(0, k - 1));
        k = k - 1;
    }
    k
}

/// Where the file name of `p` stands in it, if it has one.
fn file_name_range(p: &str) -> (r: Option<(usize, usize)>)
    ensures
        match r {
            Some((s, e)) => {
                &&& s <= e <= p@.len()
                &&& file_name_of(p@) == Some(p@.subrange(s as int, e as int))
                &&& seg_start(tail_trim(p@)) == s
                &&& tail_trim(p@) == p@.subrange(0, e as int)
            },
            None => file_name_of(p@) is None,
        },
{
    let n: usize = p.unicode_len();
    assert(p@.subrange(0, n as int) =~= p@);
    let e: usize = trimmed_end(p, n);
    let s: usize = segment_start(p, e);
    let ghost q = p@.subrange(0, e as int);
    assert(q.subrange(s as int, e as int) =~= p@.subrange(s as int, e as int));
    let len: usize = e - s;
    if len == 0 {
        return None;
    }
    if len == 1 && p.get_char(s) == '.' {
        assert(p@.subrange(s as int, e as int) =~= seq!['.']);
        return None;
    }
    if len == 2 && p.get_char(s) == '.' && p.get_char(s + 1) == '.' {
        assert(p@.subrange(s as int, e as int) =~= seq!['.', '.']);
        return None;
    }
    assert(p@.subrange(s as int, e as int) != seq!['.']) by {
        if len == 1 && p@.subrange(s as int, e as int) == seq!['.'] {
            assert(p@.subrange(s as int, e as int)[0] == p@[s as int]);
        }
    }
    assert(p@.subrange(s as int, e as int) != seq!['.', '.']) by {
        if len == 2 && p@.subrange(s as int, e as int) == seq!['.', '.'] {
            assert(p@.subrange(s as int, e as int)[0] == p@[s as int]);
            assert(p@.subrange(s as int, e as int)[1] == p@[s + 1]);
        }
    }
    Some((s, e))
}

/// `p` with its file name replaced by `name` (or `name` pushed when it has none), as
/// `Path::with_file_name` does.
fn with_file_name(p: &str, name: &str) -> (r: String)
    ensures
        r@ == with_file_name_of(p@, name@),
{
    match file_name_range(p) {
        Some((s, e)) => {
            let parent_end: usize = trimmed_end(p, s);
            assert(p@.subrange(0, e as int).subrange(0, s as int) =~= p@.subrange(0, s as int));
            let parent = p.substring_char(0, parent_end);
            push(parent, name)
        },
        None => push(p, name),
    }
}

/// The file name of `p`, as `Path::file_name` gives it.
pub fn file_name(p: &str) -> (r: Option<&str>)
    ensures
        match r {
            Some(n) => file_name_of(p@) == Some(n@),
            None => file_name_of(p@) is None,
        },
{
    match file_name_range(p) {
        Some((s, e)) => Some(p.substring_char(s, e)),
        None => None,
    }
}

pub open spec fn digit_char(d: int) -> char {
    (d + 48) as char
}

/// The decimal digits of `n`.
pub open spec fn digits_of(n: nat) -> Seq<char>
    decreases n,
{
    if n < 10 {
        seq![digit_char(n as int)]
    } else {
        digits_of(n / 10).push(digit_char((n % 10) as int))
    }
}

/// The decimal text of `n`, with a leading `-` when it is negative.
pub open spec fn decimal_text(n: int) -> Seq<char> {
    if n < 0 {
        seq!['-'] + digits_of((-n) as nat)
    } else {
        digits_of(n as nat)
    }
}

/// The decimal digits `0` to `9`, in order.
pub open spec fn decimal_digits() -> Seq<char> {
    "0123456789"@
}

proof fn lemma_decimal_digits()
    ensures
        decimal_digits().len() == 10,
        forall|k: int| 0 <= k < 10 ==> #[trigger] decimal_digits()[k] == digit_char(k),
{
    reveal_strlit("0123456789");
    assert(decimal_digits() =~= seq!['0', '1', '2', '3', '4', '5', '6', '7', '8', '9']);
}

/// The decimal digits of `m`, most significant first.
fn digits(m: u64) -> (r: String)
    ensures
        r@ == digits_of(m as nat),
    decreases m,
{
    let table: &str = "0123456789";
    proof {
        lemma_decimal_digits();
    }
    let last: usize = (m % 10) as usize;
    let d: &str = table.substring_char(last, last + 1);
    assert(d@ =~= seq![digit_char((m % 10) as int)]);
    if m < 10 {
        d.to_owned()
    } else {
        let mut r = digits(m / 10);
        r.append(d);
        r
    }
}

/// The decimal text of `n`, with a leading `-` when it is negative, as `i64::to_string`
/// writes it.
pub(crate) fn decimal(n: i64) -> (r: String)
    ensures
        r@ == decimal_text(n as int),
{
    if n < 0 {
        let m: u64 = ((-(n + 1)) as u64) + 1;
        assert(m as int == -(n as int));
        let mut r = String::new();
        proof {
            reveal_strlit("-");
        }
        r.append("-");
        let ds = digits(m);
        r.append(ds.as_str());
        r
    } else {
        digits(n as u64)
    }
}

/// The name of the temporary file that a write of `p` goes through first.
pub open spec fn temp_file_name(p: Seq<char>, now_ms: int) -> Seq<char> {
    let stem = match file_name_of(p) {
        Some(n) => n,
        None => "switchyard.tmp"@,
    };
    seq!['.'] + stem + seq!['.'] + decimal_text(now_ms) + ".tmp"@
}

/// `.<file name>.<now_ms>.tmp` beside `p`; `switchyard.tmp` stands for a missing file name.
pub fn temp_path_for(path: &str, now_ms: i64) -> (r: String)
    ensures
        r@ == with_file_name_of(path@, temp_file_name(path@, now_ms as int)),
{
    let stem: &str = match file_name(path) {
        Some(n) => n,
        None => "switchyard.tmp",
    };
    let stamp = decimal(now_ms);
    proof {
        reveal_strlit(".");
    }
    let head = concat3(".", stem, ".");
    let name = concat3(head.as_str(), stamp.as_str(), ".tmp");
    with_file_name(path, name.as_str())
}

/// Whether a change of `path` concerns the panel: its file name is `registry.json` or
/// `auth.json`.
pub fn is_relevant_path(path: &str) -> (r: bool)
    ensures
        r == (file_name_of(path@) == Some("registry.json"@) || file_name_of(path@) == Some(
            "auth.json"@,
        )),
{
    match file_name(path) {
        Some(n) => crate::text::same_text(n, "registry.json") || crate::text::same_text(
            n,
            "auth.json",
        ),
        None => false,
    }
}

/// The Codex home: the override when it is set and not blank, else `.codex` in the home
/// directory.
pub open spec fn codex_home_of(env_value: Option<Seq<char>>, home_dir: Option<Seq<char>>) -> Option<
    Seq<char>,
> {
    match env_value {
        Some(v) if trimmed(v).len() > 0 => Some(v),
        _ => match home_dir {
            Some(h) => Some(join_path(h, ".codex"@)),
            None => None,
        },
    }
}

/// Chooses the Codex home from the value of `SWITCHYARD_CODEX_HOME` (if it is set) and the
/// user's home directory (if there is one).
pub fn resolve_codex_home(env_value: Option<&str>, home_dir: Option<&str>) -> (r: Result<
    String,
    SwitchyardError,
>)
    ensures
        match codex_home_of(
            match env_value {
                Some(v) => Some(v@),
                None => None,
            },
            match home_dir {
                Some(h) => Some(h@),
                None => None,
            },
        ) {
            Some(p) => r matches Ok(s) && s@ == p,
            None => r matches Err(SwitchyardError::HomeDirMissing),
        },
{
    if let Some(v) = env_value {
        if !is_blank(v) {
            return Ok(v.to_owned());
        }
    }
    match home_dir {
        Some(h) => Ok(join(h, ".codex")),
        None => Err(SwitchyardError::HomeDirMissing),
    }
}


/// The file name stem of any account key is made of plain characters (so it holds no
/// separator), is neither `.` nor `..`, and is empty only for the empty key.
pub proof fn lemma_file_key_is_plain(k: Seq<char>)
    ensures
        is_plain_key(file_key_of(k)),
        file_key_of(k) != seq!['.'],
        file_key_of(k) != seq!['.', '.'],
        file_key_of(k).len() == 0 <==> k.len() == 0,
{
    let bytes = vstd::utf8::encode_utf8(k);
    lemma_encoding_alphabet(bytes);
    let e = b64url_encode(bytes);
    if file_key_of(k) == e {
        assert(e != seq!['.']) by {
            if e == seq!['.'] {
                assert(is_url_safe_symbol(e[0]));
            }
        }
        assert(e != seq!['.', '.']) by {
            if e == seq!['.', '.'] {
                assert(is_url_safe_symbol(e[0]));
            }
        }
    }
}

proof fn lemma_seg_start_after(x: Seq<char>, n: Seq<char>)
    requires
        forall|i: int| 0 <= i < n.len() ==> n[i] != '/',
        x.len() == 0 || x.last() == '/',
    ensures
        seg_start(x + n) == x.len(),
    decreases n.len(),
{
    if n.len() == 0 {
        assert(x + n =~= x);
    } else {
        assert((x + n).drop_last() =~= x + n.drop_last());
        lemma_seg_start_after(x, n.drop_last());
    }
}

/// Pushing a name with no separator, of two characters or more and not ending in `/` or
/// `.`, gives a path whose file name is that name.
proof fn lemma_file_name_of_push(base: Seq<char>, name: Seq<char>)
    requires
        name.len() >= 2,
        forall|i: int| 0 <= i < name.len() ==> name[i] != '/',
        name.last() != '.',
    ensures
        file_name_of(push_path(base, name)) == Some(name),
{
    let p = push_path(base, name);
    let x = if base.len() == 0 {
        Seq::<char>::empty()
    } else if base.last() == '/' {
        base
    } else {
        base + seq!['/']
    };
    assert(p =~= x + name);
    assert(p.last() == name.last());
    assert(tail_trim(p) == p);
    lemma_seg_start_after(x, name);
    assert(p.subrange(x.len() as int, p.len() as int) =~= name);
    assert(name != seq!['.', '.']) by {
        if name == seq!['.', '.'] {
            assert(name.last() == '.');
        }
    }
}

/// The two files that the panel follows are recognised as relevant wherever the Codex home
/// is: the registry is named `registry.json` and the credentials `auth.json`.
pub proof fn lemma_watched_files_are_relevant(home: Seq<char>)
    ensures
        file_name_of(registry_path_of(home)) == Some("registry.json"@),
        file_name_of(active_auth_path_of(home)) == Some("auth.json"@),
{
    reveal_strlit("registry.json");
    reveal_strlit("auth.json");
    reveal_strlit("accounts");
    lemma_file_name_of_push(accounts_dir_of(home), "registry.json"@);
    lemma_file_name_of_push(home, "auth.json"@);
}

/// Each account's snapshot is the file `<file key>.auth.json` in the accounts directory.
pub proof fn lemma_snapshot_file_name(home: Seq<char>, key: Seq<char>)
    ensures
        account_auth_path_of(home, key) == push_path(accounts_dir_of(home), file_key_of(key) + ".auth.json"@),
        file_name_of(account_auth_path_of(home, key)) == Some(file_key_of(key) + ".auth.json"@),
{
    reveal_strlit(".auth.json");
    lemma_file_key_is_plain(key);
    let stem = file_key_of(key);
    let name = stem + ".auth.json"@;
    assert forall|i: int| 0 <= i < name.len() implies name[i] != '/' by {
        if i < stem.len() {
            assert(is_plain_key_char(stem[i]));
        }
    }
    if stem.len() > 0 {
        assert(name[0] == stem[0]);
        assert(is_plain_key_char(stem[0]));
    }
    lemma_file_name_of_push(accounts_dir_of(home), name);
}

/// A key made only of ASCII letters, digits, `-`, `_` and `.`, other than the empty key,
/// `.` and `..`, is its own file key: its snapshot is `<home>/accounts/<key>.auth.json`.
pub proof fn lemma_plain_key_is_its_own_file_key(home: Seq<char>, k: Seq<char>)
    requires
        k.len() > 0,
        k != seq!['.'],
        k != seq!['.', '.'],
        forall|i: int|
            0 <= i < k.len() ==> {
                let c = #[trigger] k[i];
                ('a' <= c && c <= 'z') || ('A' <= c && c <= 'Z') || ('0' <= c && c <= '9') || c == '-'
                    || c == '_' || c == '.'
            },
    ensures
        file_key_of(k) == k,
        home.len() > 0 && home.last() != '/' ==> account_auth_path_of(home, k) == home + "/accounts/"@
            + k + ".auth.json"@,
{
    assert(is_plain_key(k));
    reveal_strlit("accounts");
    reveal_strlit(".auth.json");
    reveal_strlit("/accounts/");
    if home.len() > 0 && home.last() != '/' {
        let dir = accounts_dir_of(home);
        assert(dir =~= home + seq!['/'] + "accounts"@);
        let name = k + ".auth.json"@;
        assert(name[0] == k[0]);
        assert(dir.last() == 's');
        assert(account_auth_path_of(home, k) =~= dir + seq!['/'] + name);
        assert(home + "/accounts/"@ + k + ".auth.json"@ =~= dir + seq!['/'] + name);
    }
}

/// Any other key, one with a character outside that set or the empty key, `.` or `..`, is
/// stored under the unpadded URL-safe base64 of its UTF-8 bytes.
pub proof fn lemma_other_keys_are_encoded(k: Seq<char>)
    requires
        k.len() == 0 || k == seq!['.'] || k == seq!['.', '.'] || exists|i: int|
            0 <= i < k.len() && {
                let c = #[trigger] k[i];
                !(('a' <= c && c <= 'z') || ('A' <= c && c <= 'Z') || ('0' <= c && c <= '9') || c
                    == '-' || c == '_' || c == '.')
            },
    ensures
        file_key_of(k) == b64url_encode(vstd::utf8::encode_utf8(k)),
{
}

} // verus!
