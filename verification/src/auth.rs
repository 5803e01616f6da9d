//! Reading a Codex `auth.json`: either an API key, or ChatGPT tokens whose identity token
//! carries the account's claims.
use vstd::prelude::*;
use vstd::string::*;
use crate::base64url::{b64url_decode, b64url_encode, decode_url_safe, lemma_encoding_injective};
use crate::json::{
    get_object, get_str, json_error_text, json_get, json_get_object, json_get_str, json_get_text, json_of,
    parse_json, string_field, JsonValue,
};
use crate::model::SwitchyardError;
use crate::text::{ascii_lowercase, concat3, opt_view, same_text, to_ascii_lowercase};

verus! {

/// What an `auth.json` says about its account.
#[derive(Debug)]
pub struct AuthInfo {
    pub email: Option<String>,
    pub chatgpt_account_id: Option<String>,
    pub chatgpt_user_id: Option<String>,
    pub record_key: Option<String>,
    pub access_token: Option<String>,
    pub last_refresh: Option<String>,
    pub plan: Option<String>,
    pub auth_mode: String,
}

/// `AuthInfo` as texts.
pub struct AuthInfoView {
    pub email: Option<Seq<char>>,
    pub chatgpt_account_id: Option<Seq<char>>,
    pub chatgpt_user_id: Option<Seq<char>>,
    pub record_key: Option<Seq<char>>,
    pub access_token: Option<Seq<char>>,
    pub last_refresh: Option<Seq<char>>,
    pub plan: Option<Seq<char>>,
    pub auth_mode: Seq<char>,
}

impl View for AuthInfo {
    type V = AuthInfoView;

    open spec fn view(&self) -> AuthInfoView {
        AuthInfoView {
            email: opt_view(self.email),
            chatgpt_account_id: opt_view(self.chatgpt_account_id),
            chatgpt_user_id: opt_view(self.chatgpt_user_id),
            record_key: opt_view(self.record_key),
            access_token: opt_view(self.access_token),
            last_refresh: opt_view(self.last_refresh),
            plan: opt_view(self.plan),
            auth_mode: self.auth_mode@,
        }
    }
}

/// The index of the first `.` of `s` at or after `from`.
pub open spec fn next_dot(s: Seq<char>, from: int) -> Option<int>
    decreases s.len() - from,
{
    if from < 0 || from >= s.len() {
        None
    } else if s[from] == '.' {
        Some(from)
    } else {
        next_dot(s, from + 1)
    }
}

/// The second of the `.`-separated parts of a JWT, provided a third part follows it.
pub open spec fn jwt_payload_of(s: Seq<char>) -> Option<Seq<char>> {
    match next_dot(s, 0) {
        Some(i) => match next_dot(s, i + 1) {
            Some(j) => Some(s.subrange(i + 1, j)),
            None => None,
        },
        None => None,
    }
}

/// The bytes that the payload part of a JWT encodes.
pub open spec fn jwt_payload_bytes(s: Seq<char>) -> Option<Seq<u8>> {
    match jwt_payload_of(s) {
        Some(t) => b64url_decode(t),
        None => None,
    }
}

fn find_dot(s: &str, from: usize) -> (r: Option<usize>)
    requires
        from <= s@.len(),
    ensures
        match r {
            Some(i) => next_dot(s@, from as int) == Some(i as int) && from <= i < s@.len(),
            None => next_dot(s@, from as int) is None,
        },
{
    let n: usize = s.unicode_len();
    let mut i: usize = from;
    while i < n
        invariant
            n == s@.len(),
            from <= i <= n,
            next_dot(s@, from as int) == next_dot(s@, i as int),
        decreases n - i,
    {
        if s.get_char(i) == '.' {
            return Some(i);
        }
        i = i + 1;
    }
    None
}

/// The decoded payload of a JWT; `InvalidJwt` when it has fewer than three parts or its
/// payload is not unpadded URL-safe base64.
pub fn decode_jwt_payload(jwt: &str) -> (r: Result<Vec<u8>, SwitchyardError>)
    ensures
        match jwt_payload_bytes(jwt@) {
            Some(b) => r matches Ok(v) && v@ == b,
            None => r matches Err(SwitchyardError::InvalidJwt),
        },
{
    let _n: usize = jwt.unicode_len();
    let i: usize = match find_dot(jwt, 0) {
        Some(i) => i,
        None => return Err(SwitchyardError::InvalidJwt),
    };
    let j: usize = match find_dot(jwt, i + 1) {
        Some(j) => j,
        None => return Err(SwitchyardError::InvalidJwt),
    };
    let payload = jwt.substring_char(i + 1, j);
    match decode_url_safe(payload) {
        Ok(v) => {
            proof {
                let t = payload@;
                let c = choose|b: Seq<u8>| b64url_encode(b) == t;
                lemma_encoding_injective(c, v@);
            }
            Ok(v)
        },
        Err(_) => Err(SwitchyardError::InvalidJwt),
    }
}

/// What the tokens of a ChatGPT `auth.json` give before the claims are read.
#[derive(Debug)]
pub struct TokenFields {
    /// The decoded payload of the identity token: the JSON text of the claims.
    pub payload: Vec<u8>,
    pub account_id: Option<String>,
    pub access_token: Option<String>,
    pub last_refresh: Option<String>,
}

/// The first stage of reading an `auth.json`: the answer, or the claims still to be read.
#[derive(Debug)]
pub enum AuthStage {
    Done(Result<AuthInfo, SwitchyardError>),
    NeedClaims(TokenFields),
}

/// The information of an API-key `auth.json`.
pub open spec fn api_key_info(key: Seq<char>, last_refresh: Option<Seq<char>>) -> AuthInfoView {
    AuthInfoView {
        email: None,
        chatgpt_account_id: None,
        chatgpt_user_id: None,
        record_key: None,
        access_token: Some(key),
        last_refresh: last_refresh,
        plan: None,
        auth_mode: "apikey"@,
    }
}

/// The first stage of reading the parsed `auth.json`: up to the claims.
pub fn read_auth_root(root: &JsonValue) -> (r: AuthStage)
    ensures
        match json_get_text(*root, "OPENAI_API_KEY"@) {
            Some(k) => r matches AuthStage::Done(Ok(info)) && info@ == api_key_info(
                k,
                json_get_text(*root, "last_refresh"@),
            ),
            None => match json_get_object(*root, "tokens"@) {
                None => r matches AuthStage::Done(Err(SwitchyardError::IncompleteAuth)),
                Some(tokens) => match json_get_str(tokens, "id_token"@) {
                    None => r matches AuthStage::Done(Err(SwitchyardError::IncompleteAuth)),
                    Some(id_token) => match jwt_payload_bytes(id_token) {
                        None => r matches AuthStage::Done(Err(SwitchyardError::InvalidJwt)),
                        Some(payload) => r matches AuthStage::NeedClaims(t) && t.payload@
                            == payload && opt_view(t.account_id) == json_get_text(
                            tokens,
                            "account_id"@,
                        ) && opt_view(t.access_token) == json_get_text(tokens, "access_token"@)
                            && opt_view(t.last_refresh) == json_get_text(*root, "last_refresh"@),
                    },
                },
            },
        },
{
    if let Some(key) = string_field(root, "OPENAI_API_KEY") {
        return AuthStage::Done(
            Ok(
                AuthInfo {
                    email: None,
                    chatgpt_account_id: None,
                    chatgpt_user_id: None,
                    record_key: None,
                    access_token: Some(key),
                    last_refresh: string_field(root, "last_refresh"),
                    plan: None,
                    auth_mode: "apikey".to_owned(),
                },
            ),
        );
    }
    let tokens = match get_object(root, "tokens") {
        Some(t) => t,
        None => return AuthStage::Done(Err(SwitchyardError::IncompleteAuth)),
    };
    let id_token = match get_str(tokens, "id_token") {
        Some(s) => s,
        None => return AuthStage::Done(Err(SwitchyardError::IncompleteAuth)),
    };
    let payload = match decode_jwt_payload(id_token.as_str()) {
        Ok(p) => p,
        Err(e) => return AuthStage::Done(Err(e)),
    };
    AuthStage::NeedClaims(
        TokenFields {
            payload,
            account_id: string_field(tokens, "account_id"),
            access_token: string_field(tokens, "access_token"),
            last_refresh: string_field(root, "last_refresh"),
        },
    )
}

/// The user id of the claims: `chatgpt_user_id` when it is a string, else `user_id`; kept
/// only when it is not empty.
pub open spec fn claims_user_id(auth_claims: JsonValue) -> Option<Seq<char>> {
    let u = match json_get_str(auth_claims, "chatgpt_user_id"@) {
        Some(u) => Some(u),
        None => json_get_str(auth_claims, "user_id"@),
    };
    match u {
        Some(u) => if u.len() > 0 { Some(u) } else { None },
        None => None,
    }
}

/// The account id: the token's, else the claims'.
pub open spec fn either_id(token_id: Option<Seq<char>>, claim_id: Option<Seq<char>>) -> Option<Seq<char>> {
    match token_id {
        Some(t) => Some(t),
        None => claim_id,
    }
}

/// `user::account` when both are known.
pub open spec fn record_key_of(user: Option<Seq<char>>, account: Option<Seq<char>>) -> Option<Seq<char>> {
    match (user, account) {
        (Some(u), Some(a)) => Some(u + "::"@ + a),
        _ => None,
    }
}

/// The information of a ChatGPT `auth.json` with the given token fields and claims.
pub open spec fn chatgpt_info(
    account_id: Option<Seq<char>>,
    access_token: Option<Seq<char>>,
    last_refresh: Option<Seq<char>>,
    claims: JsonValue,
    auth_claims: JsonValue,
) -> AuthInfoView {
    let id = either_id(account_id, json_get_text(auth_claims, "chatgpt_account_id"@));
    let user = claims_user_id(auth_claims);
    AuthInfoView {
        email: match json_get_str(claims, "email"@) {
            Some(e) => Some(ascii_lowercase(e)),
            None => None,
        },
        chatgpt_account_id: id,
        chatgpt_user_id: user,
        record_key: record_key_of(user, id),
        access_token: access_token,
        last_refresh: last_refresh,
        plan: json_get_text(auth_claims, "chatgpt_plan_type"@),
        auth_mode: "chatgpt"@,
    }
}

/// What the second stage gives: `claims` is the JSON that the token payload holds, or
/// `None` when the payload is not JSON. The claims must have an
/// `https://api.openai.com/auth` object, and an account id given both by the token and by
/// the claims must agree.
pub open spec fn claims_outcome(
    account_id: Option<Seq<char>>,
    access_token: Option<Seq<char>>,
    last_refresh: Option<Seq<char>>,
    claims: Option<JsonValue>,
    r: Result<AuthInfo, SwitchyardError>,
) -> bool {
    match claims {
        None => r matches Err(SwitchyardError::InvalidAuthFormat),
        Some(c) => match json_get_object(c, "https://api.openai.com/auth"@) {
            None => r matches Err(SwitchyardError::IncompleteAuth),
            Some(ac) => {
                let claim_id = json_get_text(ac, "chatgpt_account_id"@);
                if account_id is Some && claim_id is Some && account_id != claim_id {
                    r matches Err(SwitchyardError::AccountIdMismatch)
                } else {
                    r matches Ok(info) && info@ == chatgpt_info(
                        account_id,
                        access_token,
                        last_refresh,
                        c,
                        ac,
                    )
                }
            },
        },
    }
}

/// What reading the parsed `auth.json` `root` gives: an `OPENAI_API_KEY` that is a
/// non-empty string settles it; otherwise `tokens` must be an object with a string
/// `id_token` whose payload decodes, and the claims are the JSON of that payload.
pub open spec fn auth_outcome(root: JsonValue, r: Result<AuthInfo, SwitchyardError>) -> bool {
    match json_get_text(root, "OPENAI_API_KEY"@) {
        Some(k) => r matches Ok(info) && info@ == api_key_info(k, json_get_text(root, "last_refresh"@)),
        None => match json_get_object(root, "tokens"@) {
            None => r matches Err(SwitchyardError::IncompleteAuth),
            Some(tokens) => match json_get_str(tokens, "id_token"@) {
                None => r matches Err(SwitchyardError::IncompleteAuth),
                Some(id_token) => match jwt_payload_bytes(id_token) {
                    None => r matches Err(SwitchyardError::InvalidJwt),
                    Some(payload) => claims_outcome(
                        json_get_text(tokens, "account_id"@),
                        json_get_text(tokens, "access_token"@),
                        json_get_text(root, "last_refresh"@),
                        json_of(payload),
                        r,
                    ),
                },
            },
        },
    }
}

/// The second stage of reading an `auth.json`, given the claims read from `tokens.payload`
/// (`parse_auth_bytes` reads them with the same JSON parser; `None` when they are not JSON).
pub fn read_auth_claims(tokens: TokenFields, claims: Option<&JsonValue>) -> (r: Result<
    AuthInfo,
    SwitchyardError,
>)
    ensures
        claims_outcome(
            opt_view(tokens.account_id),
            opt_view(tokens.access_token),
            opt_view(tokens.last_refresh),
            match claims {
                Some(c) => Some(*c),
                None => None,
            },
            r,
        ),
{
    let claims = match claims {
        Some(c) => c,
        None => return Err(SwitchyardError::InvalidAuthFormat),
    };
    let auth_claims = match get_object(claims, "https://api.openai.com/auth") {
        Some(a) => a,
        None => return Err(SwitchyardError::IncompleteAuth),
    };
    let claim_account_id = string_field(auth_claims, "chatgpt_account_id");
    let token_account_id = tokens.account_id;
    if let (Some(t), Some(c)) = (&token_account_id, &claim_account_id) {
        if !same_text(t.as_str(), c.as_str()) {
            return Err(SwitchyardError::AccountIdMismatch);
        }
    }
    let chatgpt_account_id = match token_account_id {
        Some(t) => Some(t),
        None => claim_account_id,
    };
    let user_text = match get_str(auth_claims, "chatgpt_user_id") {
        Some(u) => Some(u),
        None => get_str(auth_claims, "user_id"),
    };
    let chatgpt_user_id = match user_text {
        Some(u) => if u.as_str().is_empty() {
            None
        } else {
            Some(u.clone())
        },
        None => None,
    };
    let record_key = match (&chatgpt_user_id, &chatgpt_account_id) {
        (Some(u), Some(a)) => Some(concat3(u.as_str(), "::", a.as_str())),
        _ => None,
    };
    let email = match get_str(claims, "email") {
        Some(e) => Some(to_ascii_lowercase(e.as_str())),
        None => None,
    };
    Ok(
        AuthInfo {
            email,
            chatgpt_account_id,
            chatgpt_user_id,
            record_key,
            access_token: tokens.access_token,
            last_refresh: tokens.last_refresh,
            plan: string_field(auth_claims, "chatgpt_plan_type"),
            auth_mode: "chatgpt".to_owned(),
        },
    )
}

/// Reads an `auth.json` from its bytes: `ParseJson` (for `auth.json`) when they are not
/// JSON, else what `auth_outcome` says of the document; the token payload's claims are read
/// with the same JSON parser.
pub fn parse_auth_bytes(bytes: &[u8]) -> (r: Result<AuthInfo, SwitchyardError>)
    ensures
        match json_of(bytes@) {
            None => r matches Err(SwitchyardError::ParseJson { path, .. }) && path@ == "auth.json"@,
            Some(root) => auth_outcome(root, r),
        },
{
    let root = match parse_json(bytes) {
        Ok(v) => v,
        Err(e) => {
            return Err(
                SwitchyardError::ParseJson { path: "auth.json".to_owned(), detail: json_error_text(&e) },
            );
        },
    };
    match read_auth_root(&root) {
        AuthStage::Done(r) => r,
        AuthStage::NeedClaims(tokens) => {
            let claims = match parse_json(tokens.payload.as_slice()) {
                Ok(c) => Some(c),
                Err(_) => None,
            };
            read_auth_claims(tokens, claims.as_ref())
        },
    }
}

/// The plan of a ChatGPT `auth.json` is the `chatgpt_plan_type` of its
/// `https://api.openai.com/auth` claims when that is a non-empty string, and nothing
/// otherwise, whatever the rest of the claims hold; and its record key is `user::account`
/// of the user id and account id it reports, present exactly when both are.
pub proof fn lemma_chatgpt_plan_and_record_key(
    account_id: Option<Seq<char>>,
    access_token: Option<Seq<char>>,
    last_refresh: Option<Seq<char>>,
    claims: JsonValue,
    auth_claims: JsonValue,
    info: AuthInfo,
)
    requires
        claims_outcome(account_id, access_token, last_refresh, Some(claims), Ok(info)),
        json_get(claims, "https://api.openai.com/auth"@) == Some(auth_claims),
    ensures
        info@.plan == match json_get(auth_claims, "chatgpt_plan_type"@) {
            Some(JsonValue::Str(p)) => if p@.len() > 0 {
                Some(p@)
            } else {
                None
            },
            _ => None,
        },
        info@.record_key is Some <==> (info@.chatgpt_user_id is Some && info@.chatgpt_account_id is Some),
        info@.record_key is Some ==> info@.record_key == Some(
            info@.chatgpt_user_id.unwrap() + "::"@ + info@.chatgpt_account_id.unwrap(),
        ),
        info@.auth_mode == "chatgpt"@,
{
}

/// Reading ChatGPT claims: the account id is the token's when it has one, else the claims';
/// when both are given and differ the read is refused with `AccountIdMismatch`; the e-mail
/// is the claims' e-mail in ASCII lower case.
pub proof fn lemma_chatgpt_ids_and_email(
    account_id: Option<Seq<char>>,
    access_token: Option<Seq<char>>,
    last_refresh: Option<Seq<char>>,
    claims: JsonValue,
    auth_claims: JsonValue,
    r: Result<AuthInfo, SwitchyardError>,
)
    requires
        claims_outcome(account_id, access_token, last_refresh, Some(claims), r),
        json_get(claims, "https://api.openai.com/auth"@) == Some(auth_claims),
        auth_claims is Object,
    ensures
        (r matches Err(SwitchyardError::AccountIdMismatch)) <==> (account_id matches Some(t)
            && json_get_text(auth_claims, "chatgpt_account_id"@) matches Some(c) && t != c),
        r is Err ==> (r matches Err(SwitchyardError::AccountIdMismatch)),
        r matches Ok(info) ==> info@.chatgpt_account_id == (if account_id is Some {
            account_id
        } else {
            json_get_text(auth_claims, "chatgpt_account_id"@)
        }),
        r matches Ok(info) ==> info@.email == (match json_get(claims, "email"@) {
            Some(JsonValue::Str(e)) => Some(e@.map_values(
                |ch: char|
                    if 'A' <= ch && ch <= 'Z' {
                        ((ch as u32) + 32) as char
                    } else {
                        ch
                    },
            )),
            _ => None,
        }),
        r matches Ok(info) ==> info@.access_token == access_token && info@.last_refresh == last_refresh,
{
    if let Ok(info) = r {
        if let Some(JsonValue::Str(e)) = json_get(claims, "email"@) {
            assert(ascii_lowercase(e@) =~= e@.map_values(
                |ch: char|
                    if 'A' <= ch && ch <= 'Z' {
                        ((ch as u32) + 32) as char
                    } else {
                        ch
                    },
            ));
        }
    }
}

/// An `auth.json` whose `OPENAI_API_KEY` is a non-empty string is an API-key login: the key
/// is its access token, it has no account, user, record key, e-mail or plan, whatever else
/// the file holds.
pub proof fn lemma_api_key_login(root: JsonValue, r: Result<AuthInfo, SwitchyardError>, key: Seq<char>)
    requires
        auth_outcome(root, r),
        json_get(root, "OPENAI_API_KEY"@) matches Some(JsonValue::Str(k)) && k@ == key,
        key.len() > 0,
    ensures
        r matches Ok(info) && info@.access_token == Some(key) && info@.record_key is None
            && info@.chatgpt_account_id is None && info@.chatgpt_user_id is None && info@.email is None
            && info@.plan is None && info@.auth_mode == "apikey"@,
{
}

} // verus!
