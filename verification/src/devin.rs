//! The decisions of the Devin sign-in flows: validating pasted credentials,
//! choosing nicknames and organisations, and what a sign-in, refresh or
//! conversion writes into an account. The network calls stay with the caller,
//! which hands their results in.
use vstd::prelude::*;
use crate::account_store::{has_id, index_of, StoreError};
use crate::data_store::{newest_logs, DataStore};
use crate::ids::{new_uuid, parse_uuid, uuid_parse};
use crate::model::{
    account_views, is_devin, new_account_view, Account, AccountStatus, AccountView, OperationLog,
    OperationStatus, OperationType,
};
use crate::text::{
    email_local_part, has_prefix, local_part, lowercase, text_eq, to_lower, trim_text, trimmed,
};
use crate::time::{pseudo_expiry, session_pseudo_expiry, utc_from_unix_secs, utc_now, UtcTime};

verus! {

/// Shortest accepted length, in bytes, of a pasted `auth1_` token.
pub const AUTH1_MIN_LEN: usize = 20;

/// Why a Devin flow stopped.
#[derive(Debug)]
pub enum DevinError {
    /// The session token does not start with `devin-session-token$`.
    BadSessionTokenPrefix,
    /// The auth1 token does not start with `auth1_`.
    BadAuth1TokenPrefix,
    /// The auth1 token is shorter than `AUTH1_MIN_LEN` bytes; its length is given.
    Auth1TokenTooShort(usize),
    /// The user lookup reported failure, with its message if it gave one.
    UserLookupFailed(Option<String>),
    /// The user lookup answered without user information.
    MissingUserInfo,
    /// The user information holds no e-mail address.
    MissingEmail,
    /// An account with this e-mail address (compared ignoring case) exists.
    AccountExists(String),
    /// The account holds no auth1 token to refresh its session with.
    MissingAuth1Token,
    /// The account's stored password is empty or white space.
    EmptyPassword,
    /// The store refused the operation.
    Store(StoreError),
    /// The account identifier given is not a UUID; the text is given.
    InvalidId(String),
}

/// An organisation the user belongs to.
#[derive(Debug)]
pub struct Org {
    pub id: String,
    pub name: String,
}

/// What a Devin password, e-mail-code or registration sign-in yields.
#[derive(Debug)]
pub struct DevinLoginResult {
    pub auth1_token: String,
    pub session_token: String,
    pub account_id: Option<String>,
    pub primary_org_id: Option<String>,
    pub requires_org_selection: bool,
    pub orgs: Vec<Org>,
}

/// What exchanging an auth1 token for a Windsurf session yields.
#[derive(Debug)]
pub struct WindsurfPostAuthResult {
    pub session_token: String,
    pub auth1_token: Option<String>,
    pub account_id: Option<String>,
    pub primary_org_id: Option<String>,
    pub orgs: Vec<Org>,
}

/// The fields of the user lookup's `user_info` that the flows read: the user's
/// e-mail, API key and disabled flag, the plan name, and the subscription's used
/// and total quota, expiry (Unix seconds) and active flag.
#[derive(Debug)]
pub struct UserInfo {
    pub email: Option<String>,
    pub api_key: Option<String>,
    pub disable_codeium: Option<bool>,
    pub plan_name: Option<String>,
    pub used_quota: Option<i64>,
    pub quota: Option<i64>,
    pub expires_at: Option<i64>,
    pub subscription_active: Option<bool>,
}

/// The user lookup's answer: its success flag, message and user information.
#[derive(Debug)]
pub struct CurrentUserResponse {
    pub success: bool,
    pub message: Option<String>,
    pub user_info: Option<UserInfo>,
}

/// The Devin-specific parts of an authentication context.
#[derive(Debug)]
pub struct DevinAuthContext {
    pub account_id: Option<String>,
    pub auth1_token: Option<String>,
    pub primary_org_id: Option<String>,
}

/// The credentials a request to the Windsurf services is sent with.
#[derive(Debug)]
pub struct AuthContext {
    pub token: String,
    pub devin: Option<DevinAuthContext>,
}

/// The Devin credentials a new account is stored with.
#[derive(Debug)]
pub struct DevinCredentials {
    pub session_token: String,
    pub auth1_token: Option<String>,
    pub account_id: Option<String>,
    pub primary_org_id: Option<String>,
}

/// Some account's e-mail address equals `email` once both are lower-cased.
pub open spec fn has_email_ignoring_case(s: Seq<AccountView>, email: Seq<char>) -> bool {
    exists|i: int| 0 <= i < s.len() && lowercase(s[i].email@) == lowercase(email)
}

/// The nickname of a new account: the one given, or else the part of the e-mail
/// address before its `@`.
pub open spec fn nickname_or_local(nickname: Option<String>, email: Seq<char>) -> Seq<char> {
    match nickname {
        Some(n) => n@,
        None => local_part(email),
    }
}

/// The nickname of an imported account: the one given without surrounding white
/// space when that leaves something, or else the part of the e-mail address before
/// its `@`.
pub open spec fn trimmed_nickname_or_local(nickname: Option<String>, email: Seq<char>) -> Seq<char> {
    match nickname {
        Some(n) => if trimmed(n@).len() > 0 {
            trimmed(n@)
        } else {
            local_part(email)
        },
        None => local_part(email),
    }
}

/// `base` after a Devin sign-in at `now`: the given tags and group, active, signed
/// in at `now`, the session token as access token expiring 32 days later, the Devin
/// identifiers, and `provider` as its sign-in provider.
pub open spec fn with_devin_session(
    base: AccountView,
    tags: Seq<String>,
    group: Option<String>,
    creds: DevinCredentials,
    now: UtcTime,
    provider: Option<String>,
) -> AccountView {
    AccountView {
        tags: tags,
        group: group,
        status: AccountStatus::Active,
        last_login_at: Some(now),
        token: Some(creds.session_token),
        devin_auth1_token: creds.auth1_token,
        devin_account_id: creds.account_id,
        devin_primary_org_id: creds.primary_org_id,
        auth_provider: provider,
        token_expires_at: Some(pseudo_expiry(now)),
        ..base
    }
}

/// `a` after applying user information `u` at `now`; `sub_expiry` is the
/// subscription expiry that the expiry seconds converted to.
pub open spec fn with_user_info(a: AccountView, u: UserInfo, sub_expiry: Option<UtcTime>, now: UtcTime) -> AccountView {
    AccountView {
        windsurf_api_key: if u.api_key is Some {
            u.api_key
        } else {
            a.windsurf_api_key
        },
        is_disabled: if u.disable_codeium is Some {
            u.disable_codeium
        } else {
            a.is_disabled
        },
        plan_name: if u.plan_name is Some {
            u.plan_name
        } else {
            a.plan_name
        },
        used_quota: match u.used_quota {
            Some(x) => Some(x as i32),
            None => a.used_quota,
        },
        total_quota: match u.quota {
            Some(x) => Some(x as i32),
            None => a.total_quota,
        },
        subscription_expires_at: if u.expires_at is Some {
            sub_expiry
        } else {
            a.subscription_expires_at
        },
        subscription_active: if u.subscription_active is Some {
            u.subscription_active
        } else {
            a.subscription_active
        },
        last_quota_update: Some(now),
        ..a
    }
}

/// `a` after a session refresh that yielded `post`: the new session token, and the
/// auth1 token, account and organisation identifiers where `post` has them.
pub open spec fn with_refreshed_session(a: AccountView, post: WindsurfPostAuthResult) -> AccountView {
    AccountView {
        token: Some(post.session_token),
        devin_auth1_token: if post.auth1_token is Some {
            post.auth1_token
        } else {
            a.devin_auth1_token
        },
        devin_account_id: if post.account_id is Some {
            post.account_id
        } else {
            a.devin_account_id
        },
        devin_primary_org_id: if post.primary_org_id is Some {
            post.primary_org_id
        } else {
            a.devin_primary_org_id
        },
        ..a
    }
}

/// The credentials for refreshing the session of account `a`: its auth1 token and
/// its primary organisation (empty when it has none).
pub open spec fn refresh_inputs(a: AccountView) -> Option<(String, Seq<char>)> {
    match a.devin_auth1_token {
        Some(t) => Some(
            (
                t,
                match a.devin_primary_org_id {
                    Some(o) => o@,
                    None => Seq::empty(),
                },
            ),
        ),
        None => None,
    }
}

/// The e-mail address a user lookup names: present when the lookup succeeded and
/// its user information holds a non-empty e-mail address.
pub open spec fn lookup_email(user: CurrentUserResponse) -> Option<String> {
    match user.user_info {
        Some(u) => match u.email {
            Some(e) => if user.success && e@.len() > 0 {
                Some(e)
            } else {
                None
            },
            None => None,
        },
        None => None,
    }
}

/// Whether an auth1 import must stop for an organisation choice: none was
/// requested, automatic choice is off, and the user has more than one.
pub open spec fn org_choice_due(requested: Seq<char>, auto_select_primary_org: Option<bool>, org_count: int) -> bool {
    requested.len() == 0 && !(auto_select_primary_org == Some(true)) && org_count > 1
}

/// Checks a pasted Devin session token: it is taken without surrounding white space
/// and must start with `devin-session-token$`.
pub fn validate_session_token(raw: &str) -> (r: Result<String, DevinError>)
    ensures
        r is Ok <==> "devin-session-token$"@.is_prefix_of(trimmed(raw@)),
        r matches Ok(t) ==> t@ == trimmed(raw@),
        r matches Err(e) ==> e is BadSessionTokenPrefix,
{
    let t = trim_text(raw);
    if !has_prefix(t.as_str(), "devin-session-token$") {
        return Err(DevinError::BadSessionTokenPrefix);
    }
    Ok(t)
}

/// Checks a pasted auth1 token: it is taken without surrounding white space, must
/// start with `auth1_` and must be at least `AUTH1_MIN_LEN` bytes long.
pub fn validate_auth1_token(raw: &str) -> (r: Result<String, DevinError>)
    ensures
        r is Ok <==> "auth1_"@.is_prefix_of(trimmed(raw@)) && (vstd::utf8::encode_utf8(
            trimmed(raw@),
        ).len() as usize) >= AUTH1_MIN_LEN,
        r matches Ok(t) ==> t@ == trimmed(raw@),
        !"auth1_"@.is_prefix_of(trimmed(raw@)) ==> (r matches Err(e) && e is BadAuth1TokenPrefix),
        "auth1_"@.is_prefix_of(trimmed(raw@)) && (vstd::utf8::encode_utf8(trimmed(raw@)).len() as usize)
            < AUTH1_MIN_LEN ==> (r matches Err(DevinError::Auth1TokenTooShort(n))
            && n == (vstd::utf8::encode_utf8(trimmed(raw@)).len() as usize)),
{
    let t = trim_text(raw);
    if !has_prefix(t.as_str(), "auth1_") {
        return Err(DevinError::BadAuth1TokenPrefix);
    }
    let n = t.as_str().len();
    if n < AUTH1_MIN_LEN {
        return Err(DevinError::Auth1TokenTooShort(n));
    }
    Ok(t)
}

/// Reads the user lookup's answer: refused when it reports failure, holds no user
/// information, or no non-empty e-mail address; otherwise gives the user
/// information and the e-mail address.
pub fn check_current_user(resp: CurrentUserResponse) -> (r: Result<(UserInfo, String), DevinError>)
    ensures
        !resp.success ==> (r matches Err(DevinError::UserLookupFailed(m)) && m == resp.message),
        resp.success && resp.user_info is None ==> (r matches Err(e) && e is MissingUserInfo),
        (resp.user_info matches Some(u) && resp.success && (u.email is None
            || u.email.unwrap()@.len() == 0)) ==> (r matches Err(e) && e is MissingEmail),
        r is Ok <==> (resp.user_info matches Some(u) && resp.success && u.email is Some
            && u.email.unwrap()@.len() > 0),
        r matches Ok((u, e)) ==> resp.user_info == Some(u) && u.email == Some(e),
{
    if !resp.success {
        return Err(DevinError::UserLookupFailed(resp.message));
    }
    let info = match resp.user_info {
        Some(u) => u,
        None => return Err(DevinError::MissingUserInfo),
    };
    let email = match &info.email {
        Some(e) => {
            if e.as_str().is_empty() {
                return Err(DevinError::MissingEmail);
            }
            e.clone()
        },
        None => return Err(DevinError::MissingEmail),
    };
    Ok((info, email))
}

/// The nickname of a new account: the one given, or else the part of the e-mail
/// address before its `@`.
pub fn devin_nickname(nickname: Option<String>, email: &str) -> (r: String)
    ensures
        r@ == nickname_or_local(nickname, email@),
{
    match nickname {
        Some(n) => n,
        None => email_local_part(email),
    }
}

/// The nickname of an imported account: the one given without surrounding white
/// space when that leaves something, or else the part of the e-mail address before
/// its `@`.
pub fn imported_nickname(nickname: Option<String>, email: &str) -> (r: String)
    ensures
        r@ == trimmed_nickname_or_local(nickname, email@),
{
    match nickname {
        Some(n) => {
            let t = trim_text(n.as_str());
            if t.as_str().is_empty() {
                email_local_part(email)
            } else {
                t
            }
        },
        None => email_local_part(email),
    }
}

/// The organisation the user asked for, without surrounding white space (empty when
/// none was given).
pub fn requested_org(org_id: &Option<String>) -> (r: String)
    ensures
        r@ == match *org_id {
            Some(o) => trimmed(o@),
            None => Seq::empty(),
        },
{
    match org_id {
        Some(o) => trim_text(o.as_str()),
        None => String::new(),
    }
}

/// Whether importing an auth1 token must stop and let the user pick an
/// organisation: none was requested, automatic choice is off, and the user belongs
/// to more than one.
pub fn org_choice_needed(requested: &str, auto_select_primary_org: Option<bool>, org_count: usize) -> (b: bool)
    ensures
        b == (requested@.len() == 0 && !(auto_select_primary_org == Some(true)) && org_count > 1),
{
    let auto_pick = match auto_select_primary_org {
        Some(v) => v,
        None => false,
    };
    requested.is_empty() && !auto_pick && org_count > 1
}

/// The primary organisation stored for an imported account: the one the session
/// exchange named, or else the one requested, or else the first of the user's
/// organisations.
pub fn chosen_primary_org(post_primary: Option<String>, requested: String, orgs: &Vec<Org>) -> (r: Option<String>)
    ensures
        post_primary is Some ==> r == post_primary,
        post_primary is None && requested@.len() > 0 ==> r == Some(requested),
        post_primary is None && requested@.len() == 0 && orgs@.len() > 0 ==> (r matches Some(o)
            && o@ == orgs@[0].id@),
        post_primary is None && requested@.len() == 0 && orgs@.len() == 0 ==> r is None,
{
    match post_primary {
        Some(o) => Some(o),
        None => {
            if !requested.as_str().is_empty() {
                Some(requested)
            } else if orgs.len() > 0 {
                Some(orgs[0].id.clone())
            } else {
                None
            }
        },
    }
}

/// The auth1 token to keep after an exchange: the rotated one the exchange gave,
/// or else the one sent.
pub fn effective_auth1_token(rotated: Option<String>, sent: String) -> (r: String)
    ensures
        rotated matches Some(t) ==> r == t,
        rotated is None ==> r == sent,
{
    match rotated {
        Some(t) => t,
        None => sent,
    }
}

/// The context that requests about `account` are sent with: for a Devin account the
/// session token with the account's Devin identifiers, otherwise the bare token.
pub fn build_auth_context_for_account(account: &Account, session_token: &str) -> (r: AuthContext)
    ensures
        r.token@ == session_token@,
        is_devin(account@) ==> (r.devin matches Some(d) && d.account_id
            == account.devin_account_id && d.auth1_token == account.devin_auth1_token
            && d.primary_org_id == account.devin_primary_org_id),
        !is_devin(account@) ==> r.devin is None,
{
    if account.is_devin_account() {
        AuthContext {
            token: session_token.to_string(),
            devin: Some(
                DevinAuthContext {
                    account_id: crate::text::copy_opt_text(&account.devin_account_id),
                    auth1_token: crate::text::copy_opt_text(&account.devin_auth1_token),
                    primary_org_id: crate::text::copy_opt_text(&account.devin_primary_org_id),
                },
            ),
        }
    } else {
        AuthContext { token: session_token.to_string(), devin: None }
    }
}

/// The context for a session token alone, with no Devin identifiers.
pub fn session_only_context(session_token: String) -> (r: AuthContext)
    ensures
        r.token == session_token,
        r.devin matches Some(d) && d.account_id is None && d.auth1_token is None
            && d.primary_org_id is None,
{
    AuthContext {
        token: session_token,
        devin: Some(DevinAuthContext { account_id: None, auth1_token: None, primary_org_id: None }),
    }
}

/// Writes user information into `account`, marking the quota as updated now.
/// Quotas are narrowed to 32 bits as the stored fields are; an expiry outside
/// chrono's range clears the stored expiry.
pub fn apply_user_info_to_account(account: &mut Account, info: &UserInfo)
    ensures
        ({
            let f = final(account)@;
            &&& f.last_quota_update is Some
            &&& (info.expires_at matches Some(x) ==> (f.subscription_expires_at matches Some(t)
                ==> t.secs == x && t.nanos == 0))
            &&& (info.expires_at matches Some(x) ==> (-8_000_000_000_000 <= x <= 8_000_000_000_000
                ==> f.subscription_expires_at == Some(UtcTime { secs: x, nanos: 0 })))
            &&& f == with_user_info(
                old(account)@,
                *info,
                f.subscription_expires_at,
                f.last_quota_update.unwrap(),
            )
        }),
        info.subscription_active is Some ==> final(account).subscription_active == info.subscription_active,
        info.subscription_active is None ==> final(account).subscription_active == old(
            account,
        ).subscription_active,
        info.api_key is Some ==> final(account).windsurf_api_key == info.api_key,
        info.api_key is None ==> final(account).windsurf_api_key == old(account).windsurf_api_key,
        info.disable_codeium is Some ==> final(account).is_disabled == info.disable_codeium,
        info.disable_codeium is None ==> final(account).is_disabled == old(account).is_disabled,
        info.plan_name is Some ==> final(account).plan_name == info.plan_name,
        info.plan_name is None ==> final(account).plan_name == old(account).plan_name,
        info.used_quota matches Some(x) ==> final(account).used_quota == Some(x as i32),
        info.used_quota is None ==> final(account).used_quota == old(account).used_quota,
        info.quota matches Some(x) ==> final(account).total_quota == Some(x as i32),
        info.quota is None ==> final(account).total_quota == old(account).total_quota,
        info.expires_at is None ==> final(account).subscription_expires_at == old(
            account,
        ).subscription_expires_at,
{
    match &info.api_key {
        Some(k) => {
            account.windsurf_api_key = Some(k.clone());
        },
        None => {},
    }
    match info.disable_codeium {
        Some(d) => {
            account.is_disabled = Some(d);
        },
        None => {},
    }
    match &info.plan_name {
        Some(p) => {
            account.plan_name = Some(p.clone());
        },
        None => {},
    }
    match info.used_quota {
        Some(u) => {
            account.used_quota = Some(#[verifier::truncate] (u as i32));
        },
        None => {},
    }
    match info.quota {
        Some(q) => {
            account.total_quota = Some(#[verifier::truncate] (q as i32));
        },
        None => {},
    }
    match info.expires_at {
        Some(x) => {
            account.subscription_expires_at = utc_from_unix_secs(x);
        },
        None => {},
    }
    match info.subscription_active {
        Some(a) => {
            account.subscription_active = Some(a);
        },
        None => {},
    }
    account.last_quota_update = Some(utc_now());
}

/// Writes the result of a session refresh into `account` (the caller stores it).
pub fn apply_refreshed_session(account: &mut Account, post: &WindsurfPostAuthResult)
    ensures
        final(account)@ == with_refreshed_session(old(account)@, *post),
        final(account).token == Some(post.session_token),
        post.auth1_token matches Some(t) ==> final(account).devin_auth1_token == Some(t),
        post.auth1_token is None ==> final(account).devin_auth1_token == old(account).devin_auth1_token,
        post.account_id matches Some(t) ==> final(account).devin_account_id == Some(t),
        post.account_id is None ==> final(account).devin_account_id == old(account).devin_account_id,
        post.primary_org_id matches Some(t) ==> final(account).devin_primary_org_id == Some(t),
        post.primary_org_id is None ==> final(account).devin_primary_org_id == old(
            account,
        ).devin_primary_org_id,
{
    account.token = Some(post.session_token.clone());
    match &post.auth1_token {
        Some(t) => {
            account.devin_auth1_token = Some(t.clone());
        },
        None => {},
    }
    match &post.account_id {
        Some(t) => {
            account.devin_account_id = Some(t.clone());
        },
        None => {},
    }
    match &post.primary_org_id {
        Some(t) => {
            account.devin_primary_org_id = Some(t.clone());
        },
        None => {},
    }
}

/// What refreshing the session of `account` is sent with: its auth1 token and its
/// primary organisation (empty when it has none). Refused when it has no auth1 token.
pub fn session_refresh_inputs(account: &Account) -> (r: Result<(String, String), DevinError>)
    ensures
        refresh_inputs(account@) is None ==> (r matches Err(e) && e is MissingAuth1Token),
        refresh_inputs(account@) matches Some((t, o)) ==> (r matches Ok((rt, ro)) && rt == t && ro@
            == o),
{
    let t = match &account.devin_auth1_token {
        Some(t) => t.clone(),
        None => return Err(DevinError::MissingAuth1Token),
    };
    let o = match &account.devin_primary_org_id {
        Some(o) => o.clone(),
        None => String::new(),
    };
    Ok((t, o))
}

/// Marks a refreshed account active, signed in now, and its session token as
/// expiring 32 days from now.
pub fn mark_session_refreshed(account: &mut Account)
    ensures
        (final(account)@.last_login_at matches Some(now) && final(account)@ == (AccountView {
            status: AccountStatus::Active,
            last_login_at: Some(now),
            token_expires_at: Some(pseudo_expiry(now)),
            ..old(account)@
        })),
{
    let now = utc_now();
    account.status = AccountStatus::Active;
    account.last_login_at = Some(now);
    account.token_expires_at = Some(session_pseudo_expiry(now));
}

/// Whether converting `account` to the sign-in system `to_devin` names should go
/// ahead: not when it uses that system already (`Ok(false)`); refused when its
/// stored password is empty or white space.
pub fn conversion_precheck(account: &Account, to_devin: bool, password: &str) -> (r: Result<bool, DevinError>)
    ensures
        is_devin(account@) == to_devin ==> r == Ok::<bool, DevinError>(false),
        is_devin(account@) != to_devin && trimmed(password@).len() == 0 ==> (r matches Err(e)
            && e is EmptyPassword),
        is_devin(account@) != to_devin && trimmed(password@).len() > 0 ==> r == Ok::<
            bool,
            DevinError,
        >(true),
{
    if account.is_devin_account() == to_devin {
        return Ok(false);
    }
    let t = trim_text(password);
    if t.as_str().is_empty() {
        return Err(DevinError::EmptyPassword);
    }
    Ok(true)
}

/// Switches `account` to Devin sign-in with the result of a Devin sign-in: the
/// session token as access token expiring in 32 days, no refresh token, the Devin
/// identifiers, provider `devin`, active, signed in now.
pub fn apply_devin_conversion(account: &mut Account, login: &DevinLoginResult)
    ensures
        is_devin(final(account)@),
        (final(account)@.last_login_at matches Some(now) && final(account)@ == (AccountView {
            token: Some(login.session_token),
            token_expires_at: Some(pseudo_expiry(now)),
            refresh_token: None,
            devin_auth1_token: Some(login.auth1_token),
            devin_account_id: login.account_id,
            devin_primary_org_id: login.primary_org_id,
            auth_provider: final(account)@.auth_provider,
            status: AccountStatus::Active,
            last_login_at: Some(now),
            ..old(account)@
        })),
{
    let now = utc_now();
    account.token = Some(login.session_token.clone());
    account.token_expires_at = Some(session_pseudo_expiry(now));
    account.refresh_token = None;
    account.devin_auth1_token = Some(login.auth1_token.clone());
    account.devin_account_id = crate::text::copy_opt_text(&login.account_id);
    account.devin_primary_org_id = crate::text::copy_opt_text(&login.primary_org_id);
    account.auth_provider = Some("devin".to_string());
    account.status = AccountStatus::Active;
    account.last_login_at = Some(now);
}

/// `after` is `before` switched to Devin sign-in with `login` at its new sign-in
/// time: the session token as access token expiring 32 days later, no refresh
/// token, the Devin identifiers, a Devin provider, active.
pub open spec fn devin_converted(before: AccountView, login: DevinLoginResult, after: AccountView) -> bool {
    &&& is_devin(after)
    &&& after.last_login_at matches Some(now) && after == (AccountView {
        token: Some(login.session_token),
        token_expires_at: Some(pseudo_expiry(now)),
        refresh_token: None,
        devin_auth1_token: Some(login.auth1_token),
        devin_account_id: login.account_id,
        devin_primary_org_id: login.primary_org_id,
        auth_provider: after.auth_provider,
        status: AccountStatus::Active,
        last_login_at: Some(now),
        ..before
    })
}

/// What a conversion to Devin sign-in did with the result of the Devin sign-in.
#[derive(Debug)]
pub enum DevinConversionStep {
    /// The user belongs to several organisations and must pick one; the account
    /// was left as it was.
    ChooseOrg(Vec<Org>),
    /// The account was switched to Devin sign-in.
    Applied,
}

/// Applies the result of the Devin sign-in of a conversion: when the sign-in asks
/// for an organisation choice, the account stays as it is and the organisations
/// are handed back; otherwise the account is switched to Devin sign-in.
pub fn apply_devin_login(account: &mut Account, login: DevinLoginResult) -> (r: DevinConversionStep)
    ensures
        login.requires_org_selection ==> (r matches DevinConversionStep::ChooseOrg(orgs) && orgs
            == login.orgs && *final(account) == *old(account)),
        !login.requires_org_selection ==> r is Applied && devin_converted(old(account)@, login, final(account)@),
{
    if login.requires_org_selection {
        return DevinConversionStep::ChooseOrg(login.orgs);
    }
    apply_devin_conversion(account, &login);
    DevinConversionStep::Applied
}

/// Switches `account` to Firebase sign-in with the tokens of a Firebase sign-in:
/// the Devin identifiers and provider cleared, active, signed in now.
pub fn apply_firebase_conversion(account: &mut Account, token: String, refresh_token: String, expires_at: UtcTime)
    ensures
        !is_devin(final(account)@),
        (final(account)@.last_login_at matches Some(now) && final(account)@ == (AccountView {
            token: Some(token),
            token_expires_at: Some(expires_at),
            refresh_token: Some(refresh_token),
            devin_auth1_token: None,
            devin_account_id: None,
            devin_primary_org_id: None,
            auth_provider: None,
            status: AccountStatus::Active,
            last_login_at: Some(now),
            ..old(account)@
        })),
{
    let now = utc_now();
    account.token = Some(token);
    account.token_expires_at = Some(expires_at);
    account.refresh_token = Some(refresh_token);
    account.devin_auth1_token = None;
    account.devin_account_id = None;
    account.devin_primary_org_id = None;
    account.auth_provider = None;
    account.status = AccountStatus::Active;
    account.last_login_at = Some(now);
}

/// A new log entry with a fresh identifier and the current time, about the account
/// `about` (identifier and e-mail address) when given.
pub fn new_log(operation_type: OperationType, status: OperationStatus, message: String, about: Option<(u128, String)>) -> (l: OperationLog)
    ensures
        l.operation_type == operation_type,
        l.status == status,
        l.message == message,
        about matches Some((id, e)) ==> l.account_id == Some(id) && l.account_email == Some(e),
        about is None ==> l.account_id is None && l.account_email is None,
{
    let id = new_uuid();
    let now = utc_now();
    let (account_id, account_email) = match about {
        Some((i, e)) => (Some(i), Some(e)),
        None => (None, None),
    };
    OperationLog { id, timestamp: now, operation_type, status, message, account_id, account_email }
}

/// How a sign-in flow ended: the user must first pick one of several
/// organisations (nothing is stored), or the account was created.
#[derive(Debug)]
pub enum SignInOutcome {
    NeedsOrgChoice { auth1_token: String, orgs: Vec<Org>, email: String },
    Created(Account),
}

/// The context that the user lookup of an auth1 import is sent with: the session
/// token with the exchange's account and organisation identifiers and the auth1
/// token kept.
pub fn auth1_lookup_context(post: &WindsurfPostAuthResult, auth1_token: &String) -> (r: AuthContext)
    ensures
        r.token == post.session_token,
        r.devin matches Some(d) && d.account_id == post.account_id && d.auth1_token == Some(
            *auth1_token,
        ) && d.primary_org_id == post.primary_org_id,
{
    AuthContext {
        token: post.session_token.clone(),
        devin: Some(
            DevinAuthContext {
                account_id: crate::text::copy_opt_text(&post.account_id),
                auth1_token: Some(auth1_token.clone()),
                primary_org_id: crate::text::copy_opt_text(&post.primary_org_id),
            },
        ),
    }
}

/// How a conversion of an account's sign-in system starts.
#[derive(Debug)]
pub enum ConversionStart {
    /// The account uses the target system already; nothing is to be done.
    AlreadyConverted,
    /// The conversion goes ahead with a copy of the stored account and its stored
    /// password.
    Proceed { account: Account, password: String },
}

/// What starting a conversion of account `id` of `s` gives: refused when there is no
/// such account; nothing to do when it uses the target system already; refused
/// when its stored password is empty or white space; otherwise the stored account
/// and its stored password.
pub open spec fn conversion_outcome(s: Seq<AccountView>, id: u128, to_devin: bool, r: Result<ConversionStart, DevinError>) -> bool {
    &&& !has_id(s, id) ==> (r matches Err(DevinError::Store(e)) && e == StoreError::AccountNotFound(id))
    &&& has_id(s, id) ==> {
        let a = s[index_of(s, id)];
        &&& is_devin(a) == to_devin ==> (r matches Ok(ConversionStart::AlreadyConverted))
        &&& is_devin(a) != to_devin && trimmed(a.password@).len() == 0 ==> (r matches Err(e)
            && e is EmptyPassword)
        &&& is_devin(a) != to_devin && trimmed(a.password@).len() > 0 ==> (r matches Ok(
            ConversionStart::Proceed { account, password },
        ) && account@ == a && password == a.password)
    }
}

/// What looking up the session-refresh inputs of account `id` of `s` gives:
/// refused when there is no such account or it holds no auth1 token; otherwise the
/// stored account, its auth1 token and its primary organisation (empty when none).
pub open spec fn refresh_lookup_outcome(s: Seq<AccountView>, id: u128, r: Result<(Account, String, String), DevinError>) -> bool {
    &&& !has_id(s, id) ==> (r matches Err(DevinError::Store(e)) && e == StoreError::AccountNotFound(id))
    &&& has_id(s, id) ==> {
        let a = s[index_of(s, id)];
        &&& refresh_inputs(a) is None ==> (r matches Err(e) && e is MissingAuth1Token)
        &&& refresh_inputs(a) matches Some((t, o)) ==> (r matches Ok((acc, rt, ro)) && acc@ == a
            && rt == t && ro@ == o)
    }
}

impl DataStore {
    /// Whether some account's e-mail address equals `email` once both are
    /// lower-cased.
    pub fn has_email_ignoring_case(&self, email: &str) -> (b: bool)
        ensures
            b == has_email_ignoring_case(self.account_store@, email@),
    {
        let accounts = self.account_store.get_all_accounts();
        let target = to_lower(email);
        let mut i: usize = 0;
        while i < accounts.len()
            invariant
                i <= accounts.len(),
                account_views(accounts@) == self.account_store@,
                target@ == lowercase(email@),
                forall|j: int| 0 <= j < i ==> lowercase(self.account_store@[j].email@) != lowercase(email@),
            decreases accounts.len() - i,
        {
            assert(account_views(accounts@)[i as int] == accounts@[i as int]@);
            let l = to_lower(accounts[i].email.as_str());
            if text_eq(l.as_str(), target.as_str()) {
                return true;
            }
            i = i + 1;
        }
        false
    }

    /// Starts converting account `id` to Devin sign-in (`to_devin`) or to Firebase
    /// sign-in: refused when there is no such account; nothing to do when it uses
    /// that system already; refused when its stored password is empty or white
    /// space; otherwise the stored account and password to sign in with.
    pub fn begin_conversion(&self, id: u128, to_devin: bool) -> (r: Result<ConversionStart, DevinError>)
        requires
            self.wf(),
        ensures
            conversion_outcome(self.account_store@, id, to_devin, r),
    {
        let account = match self.get_account(id) {
            Ok(a) => a,
            Err(e) => return Err(DevinError::Store(e)),
        };
        let password = match self.get_decrypted_password(id) {
            Ok(p) => p,
            Err(e) => return Err(DevinError::Store(e)),
        };
        match conversion_precheck(&account, to_devin, password.as_str()) {
            Ok(true) => Ok(ConversionStart::Proceed { account, password }),
            Ok(false) => Ok(ConversionStart::AlreadyConverted),
            Err(e) => Err(e),
        }
    }

    /// [`Self::begin_conversion`] for an account identifier given as text: refused
    /// when the text is not a UUID.
    pub fn begin_conversion_by_text(&self, id: &str, to_devin: bool) -> (r: Result<ConversionStart, DevinError>)
        requires
            self.wf(),
        ensures
            uuid_parse(id@) is None ==> (r matches Err(DevinError::InvalidId(t)) && t@ == id@),
            uuid_parse(id@) matches Some(k) ==> conversion_outcome(self.account_store@, k, to_devin, r),
    {
        match parse_uuid(id) {
            Some(k) => self.begin_conversion(k, to_devin),
            None => Err(DevinError::InvalidId(id.to_string())),
        }
    }

    /// The stored account `id` (given as text) with what refreshing its session is
    /// sent with: refused when the text is not a UUID, there is no such account, or
    /// it holds no auth1 token.
    pub fn session_refresh_inputs_by_text(&self, id: &str) -> (r: Result<(Account, String, String), DevinError>)
        requires
            self.wf(),
        ensures
            uuid_parse(id@) is None ==> (r matches Err(DevinError::InvalidId(t)) && t@ == id@),
            uuid_parse(id@) matches Some(k) ==> refresh_lookup_outcome(self.account_store@, k, r),
    {
        let k = match parse_uuid(id) {
            Some(k) => k,
            None => return Err(DevinError::InvalidId(id.to_string())),
        };
        let account = match self.get_account(k) {
            Ok(a) => a,
            Err(e) => return Err(DevinError::Store(e)),
        };
        match session_refresh_inputs(&account) {
            Ok((t, o)) => Ok((account, t, o)),
            Err(e) => Err(e),
        }
    }

    /// Creates the account of a Devin sign-in: refused when an account has this
    /// e-mail address (ignoring case) or the store refuses it. The store keeps the
    /// bare new account (with `password` and `nickname`); the account returned also
    /// carries the tags, group and Devin session, for the caller to enrich and store.
    pub fn create_devin_account(&mut self, email: String, password: String, nickname: String, tags: Vec<String>, group: Option<String>, creds: DevinCredentials) -> (r: Result<Account, DevinError>)
        requires
            old(self).wf(),
        ensures
            final(self).wf(),
            final(self).logs == old(self).logs,
            final(self).config == old(self).config,
            has_email_ignoring_case(old(self).account_store@, email@) ==> (r matches Err(
                DevinError::AccountExists(e),
            ) && e == email),
            !has_email_ignoring_case(old(self).account_store@, email@) ==> (r is Ok || r matches Err(
                DevinError::Store(StoreError::DuplicateId(_)),
            )),
            r is Err ==> final(self).account_store@ == old(self).account_store@,
            r matches Err(DevinError::Store(StoreError::DuplicateId(k))) ==> has_id(
                old(self).account_store@,
                k,
            ),
            r matches Ok(a) ==> {
                &&& !has_email_ignoring_case(old(self).account_store@, email@)
                &&& final(self).account_store@ == old(self).account_store@.push(
                    new_account_view(a.id, a.created_at, email, password, nickname),
                )
                &&& is_devin(a@)
                &&& a.last_login_at matches Some(now) && a@ == with_devin_session(
                    new_account_view(a.id, a.created_at, email, password, nickname),
                    tags@,
                    group,
                    creds,
                    now,
                    a.auth_provider,
                )
            },
            r matches Ok(a) ==> a@.tags == tags@ && a.group == group && a.email == email
                && a.password == password && a.nickname == nickname && a.token == Some(
                creds.session_token,
            ) && a.devin_auth1_token == creds.auth1_token && a.devin_account_id == creds.account_id
                && a.devin_primary_org_id == creds.primary_org_id && a.status == AccountStatus::Active,
    {
        if self.has_email_ignoring_case(email.as_str()) {
            return Err(DevinError::AccountExists(email));
        }
        let mut account = match self.add_account(email, password, nickname) {
            Ok(a) => a,
            Err(e) => return Err(DevinError::Store(e)),
        };
        let now = utc_now();
        account.tags = tags;
        account.group = group;
        account.status = AccountStatus::Active;
        account.last_login_at = Some(now);
        account.token = Some(creds.session_token);
        account.devin_auth1_token = creds.auth1_token;
        account.devin_account_id = creds.account_id;
        account.devin_primary_org_id = creds.primary_org_id;
        account.auth_provider = Some("devin".to_string());
        account.token_expires_at = Some(session_pseudo_expiry(now));
        Ok(account)
    }

    /// Stores a completed account (keeping its stored password, as
    /// [`DataStore::update_account`] does) and logs `message` about it with
    /// `operation_type`.
    pub fn record_account(&mut self, account: Account, operation_type: OperationType, message: String)
        requires
            old(self).wf(),
        ensures
            final(self).wf(),
            final(self).config == old(self).config,
            has_id(old(self).account_store@, account.id) ==> final(self).account_store@ == old(
                self,
            ).account_store@.update(
                index_of(old(self).account_store@, account.id),
                AccountView {
                    password: old(self).account_store@[index_of(
                        old(self).account_store@,
                        account.id,
                    )].password,
                    ..account@
                },
            ),
            !has_id(old(self).account_store@, account.id) ==> final(self).account_store@ == old(
                self,
            ).account_store@.push(account@),
            final(self).logs@.len() > 0,
            final(self).logs@ == newest_logs(old(self).logs@.push(final(self).logs@.last())),
            final(self).logs@.last().account_id == Some(account.id),
            final(self).logs@.last().account_email == Some(account.email),
            final(self).logs@.last().message == message,
            final(self).logs@.last().operation_type == operation_type,
            final(self).logs@.last().status == OperationStatus::Success,
    {
        let id = account.id;
        let email = account.email.clone();
        self.update_account(account);
        let log = new_log(operation_type, OperationStatus::Success, message, Some((id, email)));
        self.add_log(log);
        assert(self.logs@.last() == log);
    }
    /// The account of a sign-in by password, registration or e-mail code: when the
    /// sign-in asks for an organisation choice, nothing is stored and the choice is
    /// handed back; otherwise the account is created with `password`, the nickname
    /// given or the e-mail's local part, and the sign-in's Devin session.
    pub fn add_login_account(&mut self, email: String, password: String, nickname: Option<String>, tags: Vec<String>, group: Option<String>, login: DevinLoginResult) -> (r: Result<SignInOutcome, DevinError>)
        requires
            old(self).wf(),
        ensures
            final(self).wf(),
            final(self).logs == old(self).logs,
            final(self).config == old(self).config,
            login.requires_org_selection ==> final(self).account_store@ == old(self).account_store@
                && (r matches Ok(SignInOutcome::NeedsOrgChoice { auth1_token, orgs, email: e })
                && auth1_token == login.auth1_token && orgs == login.orgs && e == email),
            !login.requires_org_selection && has_email_ignoring_case(old(self).account_store@, email@)
                ==> (r matches Err(DevinError::AccountExists(e)) && e == email),
            !login.requires_org_selection && !has_email_ignoring_case(old(self).account_store@, email@)
                ==> (r matches Ok(SignInOutcome::Created(_)) || r matches Err(DevinError::Store(
                StoreError::DuplicateId(_),
            ))),
            r is Err ==> final(self).account_store@ == old(self).account_store@,
            r matches Err(DevinError::Store(StoreError::DuplicateId(k))) ==> has_id(
                old(self).account_store@,
                k,
            ),
            r matches Ok(SignInOutcome::Created(a)) ==> a@.tags == tags@ && a.group == group
                && a.email == email && a.password == password,
            r matches Ok(SignInOutcome::Created(a)) ==> {
                &&& !login.requires_org_selection
                &&& a.nickname@ == nickname_or_local(nickname, email@)
                &&& final(self).account_store@ == old(self).account_store@.push(
                    new_account_view(a.id, a.created_at, email, password, a.nickname),
                )
                &&& is_devin(a@)
                &&& a.last_login_at matches Some(now) && a@ == with_devin_session(
                    new_account_view(a.id, a.created_at, email, password, a.nickname),
                    tags@,
                    group,
                    DevinCredentials {
                        session_token: login.session_token,
                        auth1_token: Some(login.auth1_token),
                        account_id: login.account_id,
                        primary_org_id: login.primary_org_id,
                    },
                    now,
                    a.auth_provider,
                )
            },
    {
        if login.requires_org_selection {
            return Ok(
                SignInOutcome::NeedsOrgChoice {
                    auth1_token: login.auth1_token,
                    orgs: login.orgs,
                    email,
                },
            );
        }
        let nick = devin_nickname(nickname, email.as_str());
        let creds = DevinCredentials {
            session_token: login.session_token,
            auth1_token: Some(login.auth1_token),
            account_id: login.account_id,
            primary_org_id: login.primary_org_id,
        };
        match self.create_devin_account(email, password, nick, tags, group, creds) {
            Ok(a) => Ok(SignInOutcome::Created(a)),
            Err(e) => Err(e),
        }
    }

    /// The account of a sign-in completed for a chosen organisation `org_id`: the
    /// exchange's session, its auth1 token or else the one sent, its primary
    /// organisation or else `org_id`, and the password given (empty when none).
    pub fn add_org_account(&mut self, email: String, auth1_token: String, org_id: String, nickname: Option<String>, tags: Vec<String>, group: Option<String>, password: Option<String>, post: WindsurfPostAuthResult) -> (r: Result<Account, DevinError>)
        requires
            old(self).wf(),
        ensures
            final(self).wf(),
            final(self).logs == old(self).logs,
            final(self).config == old(self).config,
            has_email_ignoring_case(old(self).account_store@, email@) ==> (r matches Err(
                DevinError::AccountExists(e),
            ) && e == email),
            !has_email_ignoring_case(old(self).account_store@, email@) ==> (r is Ok || r matches Err(
                DevinError::Store(StoreError::DuplicateId(_)),
            )),
            r is Err ==> final(self).account_store@ == old(self).account_store@,
            r matches Err(DevinError::Store(StoreError::DuplicateId(k))) ==> has_id(
                old(self).account_store@,
                k,
            ),
            r matches Ok(a) ==> a@.tags == tags@ && a.group == group && a.email == email,
            r matches Ok(a) ==> {
                &&& a.nickname@ == nickname_or_local(nickname, email@)
                &&& a.password@ == match password {
                    Some(p) => p@,
                    None => Seq::<char>::empty(),
                }
                &&& final(self).account_store@ == old(self).account_store@.push(
                    new_account_view(a.id, a.created_at, email, a.password, a.nickname),
                )
                &&& is_devin(a@)
                &&& a.devin_auth1_token == Some(
                    match post.auth1_token {
                        Some(t) => t,
                        None => auth1_token,
                    },
                )
                &&& a.devin_primary_org_id == Some(
                    match post.primary_org_id {
                        Some(o) => o,
                        None => org_id,
                    },
                )
                &&& a.last_login_at matches Some(now) && a@ == with_devin_session(
                    new_account_view(a.id, a.created_at, email, a.password, a.nickname),
                    tags@,
                    group,
                    DevinCredentials {
                        session_token: post.session_token,
                        auth1_token: a.devin_auth1_token,
                        account_id: post.account_id,
                        primary_org_id: a.devin_primary_org_id,
                    },
                    now,
                    a.auth_provider,
                )
            },
    {
        let nick = devin_nickname(nickname, email.as_str());
        let stored_password = match password {
            Some(p) => p,
            None => String::new(),
        };
        let auth1 = effective_auth1_token(post.auth1_token, auth1_token);
        let org = match post.primary_org_id {
            Some(o) => o,
            None => org_id,
        };
        let creds = DevinCredentials {
            session_token: post.session_token,
            auth1_token: Some(auth1),
            account_id: post.account_id,
            primary_org_id: Some(org),
        };
        self.create_devin_account(email, stored_password, nick, tags, group, creds)
    }

    /// The account of a pasted session token (already checked): the user lookup's
    /// answer must name an e-mail address; the account gets no password, the
    /// nickname given (trimmed) or the e-mail's local part, the session token
    /// without Devin identifiers, and the user information.
    pub fn import_session_token_account(&mut self, session_token: String, nickname: Option<String>, tags: Vec<String>, group: Option<String>, user: CurrentUserResponse) -> (r: Result<Account, DevinError>)
        requires
            old(self).wf(),
        ensures
            final(self).wf(),
            final(self).logs == old(self).logs,
            final(self).config == old(self).config,
            !user.success ==> (r matches Err(DevinError::UserLookupFailed(m)) && m == user.message),
            user.success && user.user_info is None ==> (r matches Err(e) && e is MissingUserInfo),
            (user.user_info matches Some(u) && user.success && (u.email is None
                || u.email.unwrap()@.len() == 0)) ==> (r matches Err(e) && e is MissingEmail),
            lookup_email(user) matches Some(e) ==> (has_email_ignoring_case(old(self).account_store@, e@)
                ==> (r matches Err(DevinError::AccountExists(x)) && x == e)),
            lookup_email(user) matches Some(e) ==> (!has_email_ignoring_case(old(self).account_store@, e@)
                ==> (r is Ok || r matches Err(DevinError::Store(StoreError::DuplicateId(_))))),
            r is Err ==> final(self).account_store@ == old(self).account_store@,
            r matches Err(DevinError::Store(StoreError::DuplicateId(k))) ==> has_id(
                old(self).account_store@,
                k,
            ),
            r matches Ok(a) ==> a@.tags == tags@ && a.group == group && a.token == Some(session_token),
            r matches Ok(a) ==> {
                &&& user.user_info matches Some(u) && u.email matches Some(e) && {
                    &&& user.success
                    &&& e@.len() > 0
                    &&& !has_email_ignoring_case(old(self).account_store@, e@)
                    &&& a.nickname@ == trimmed_nickname_or_local(nickname, e@)
                    &&& a.password@ == Seq::<char>::empty()
                    &&& final(self).account_store@ == old(self).account_store@.push(
                        new_account_view(a.id, a.created_at, e, a.password, a.nickname),
                    )
                    &&& a.last_login_at matches Some(now) && a@ == with_user_info(
                        with_devin_session(
                            new_account_view(a.id, a.created_at, e, a.password, a.nickname),
                            tags@,
                            group,
                            DevinCredentials {
                                session_token: session_token,
                                auth1_token: None,
                                account_id: None,
                                primary_org_id: None,
                            },
                            now,
                            a.auth_provider,
                        ),
                        u,
                        a.subscription_expires_at,
                        a.last_quota_update.unwrap(),
                    )
                }
                &&& is_devin(a@)
            },
    {
        let (info, email) = match check_current_user(user) {
            Ok(x) => x,
            Err(e) => return Err(e),
        };
        let nick = imported_nickname(nickname, email.as_str());
        let creds = DevinCredentials {
            session_token,
            auth1_token: None,
            account_id: None,
            primary_org_id: None,
        };
        let mut account = match self.create_devin_account(email, String::new(), nick, tags, group, creds) {
            Ok(a) => a,
            Err(e) => return Err(e),
        };
        apply_user_info_to_account(&mut account, &info);
        Ok(account)
    }

    /// The account of a pasted auth1 token (already checked and exchanged): the
    /// user lookup's answer must name an e-mail address; when no organisation was
    /// requested, automatic choice is off and the user has several, nothing is
    /// stored and the choice is handed back; otherwise the account gets no password,
    /// the nickname given (trimmed) or the e-mail's local part, the exchange's
    /// session, the auth1 token kept, the chosen primary organisation and the user
    /// information.
    pub fn import_auth1_account(&mut self, auth1_token: String, requested: String, auto_select_primary_org: Option<bool>, nickname: Option<String>, tags: Vec<String>, group: Option<String>, post: WindsurfPostAuthResult, user: CurrentUserResponse) -> (r: Result<SignInOutcome, DevinError>)
        requires
            old(self).wf(),
        ensures
            final(self).wf(),
            final(self).logs == old(self).logs,
            final(self).config == old(self).config,
            !user.success ==> (r matches Err(DevinError::UserLookupFailed(m)) && m == user.message),
            user.success && user.user_info is None ==> (r matches Err(e) && e is MissingUserInfo),
            (user.user_info matches Some(u) && user.success && (u.email is None
                || u.email.unwrap()@.len() == 0)) ==> (r matches Err(e) && e is MissingEmail),
            lookup_email(user) is Some ==> (org_choice_due(requested@, auto_select_primary_org, post.orgs@.len() as int)
                <==> r matches Ok(SignInOutcome::NeedsOrgChoice { .. })),
            lookup_email(user) matches Some(e) ==> (!org_choice_due(requested@, auto_select_primary_org, post.orgs@.len() as int)
                && has_email_ignoring_case(old(self).account_store@, e@) ==> (r matches Err(
                DevinError::AccountExists(x),
            ) && x == e)),
            lookup_email(user) matches Some(e) ==> (!org_choice_due(requested@, auto_select_primary_org, post.orgs@.len() as int)
                && !has_email_ignoring_case(old(self).account_store@, e@) ==> (r matches Ok(
                SignInOutcome::Created(_),
            ) || r matches Err(DevinError::Store(StoreError::DuplicateId(_))))),
            r is Err ==> final(self).account_store@ == old(self).account_store@,
            r matches Err(DevinError::Store(StoreError::DuplicateId(k))) ==> has_id(
                old(self).account_store@,
                k,
            ),
            r matches Ok(SignInOutcome::NeedsOrgChoice { auth1_token: t, orgs, email }) ==> {
                &&& final(self).account_store@ == old(self).account_store@
                &&& requested@.len() == 0 && !(auto_select_primary_org == Some(true))
                    && post.orgs@.len() > 1
                &&& orgs == post.orgs
                &&& t == match post.auth1_token {
                    Some(x) => x,
                    None => auth1_token,
                }
                &&& user.user_info matches Some(u) && u.email == Some(email)
            },
            r matches Ok(SignInOutcome::Created(a)) ==> a@.tags == tags@ && a.group == group
                && a.token == Some(post.session_token),
            r matches Ok(SignInOutcome::Created(a)) ==> {
                &&& !(requested@.len() == 0 && !(auto_select_primary_org == Some(true))
                    && post.orgs@.len() > 1)
                &&& user.user_info matches Some(u) && u.email matches Some(e) && {
                    &&& user.success
                    &&& e@.len() > 0
                    &&& !has_email_ignoring_case(old(self).account_store@, e@)
                    &&& a.nickname@ == trimmed_nickname_or_local(nickname, e@)
                    &&& a.password@ == Seq::<char>::empty()
                    &&& final(self).account_store@ == old(self).account_store@.push(
                        new_account_view(a.id, a.created_at, e, a.password, a.nickname),
                    )
                    &&& a.devin_auth1_token == Some(
                        match post.auth1_token {
                            Some(x) => x,
                            None => auth1_token,
                        },
                    )
                    &&& (post.primary_org_id is Some ==> a.devin_primary_org_id == post.primary_org_id)
                    &&& (post.primary_org_id is None && requested@.len() > 0
                        ==> a.devin_primary_org_id == Some(requested))
                    &&& (post.primary_org_id is None && requested@.len() == 0 && post.orgs@.len() > 0
                        ==> (a.devin_primary_org_id matches Some(o) && o@ == post.orgs@[0].id@))
                    &&& (post.primary_org_id is None && requested@.len() == 0 && post.orgs@.len() == 0
                        ==> a.devin_primary_org_id is None)
                    &&& a.last_login_at matches Some(now) && a@ == with_user_info(
                        with_devin_session(
                            new_account_view(a.id, a.created_at, e, a.password, a.nickname),
                            tags@,
                            group,
                            DevinCredentials {
                                session_token: post.session_token,
                                auth1_token: a.devin_auth1_token,
                                account_id: post.account_id,
                                primary_org_id: a.devin_primary_org_id,
                            },
                            now,
                            a.auth_provider,
                        ),
                        u,
                        a.subscription_expires_at,
                        a.last_quota_update.unwrap(),
                    )
                }
                &&& is_devin(a@)
            },
    {
        let kept = effective_auth1_token(post.auth1_token, auth1_token);
        let (info, email) = match check_current_user(user) {
            Ok(x) => x,
            Err(e) => return Err(e),
        };
        if org_choice_needed(requested.as_str(), auto_select_primary_org, post.orgs.len()) {
            return Ok(SignInOutcome::NeedsOrgChoice { auth1_token: kept, orgs: post.orgs, email });
        }
        let nick = imported_nickname(nickname, email.as_str());
        let org = chosen_primary_org(post.primary_org_id, requested, &post.orgs);
        let creds = DevinCredentials {
            session_token: post.session_token,
            auth1_token: Some(kept),
            account_id: post.account_id,
            primary_org_id: org,
        };
        let mut account = match self.create_devin_account(email, String::new(), nick, tags, group, creds) {
            Ok(a) => a,
            Err(e) => return Err(e),
        };
        apply_user_info_to_account(&mut account, &info);
        Ok(SignInOutcome::Created(account))
    }
}

} // verus!
