//! The records the store keeps: accounts, tags, settings and operation-log entries.
use vstd::prelude::*;
use crate::text::{copy_opt_text, copy_texts, text_eq};
use crate::time::UtcTime;

verus! {

/// A tag as an account carries it, with the colour it is shown in.
#[derive(Debug)]
pub struct TagWithColor {
    pub name: String,
    pub color: String,
}

/// A tag of the global tag list.
#[derive(Debug)]
pub struct GlobalTag {
    pub name: String,
    pub color: String,
}

/// State of an account.
#[derive(Debug)]
pub enum AccountStatus {
    Active,
    Inactive,
    Error(String),
}

/// An account as the store keeps it. Points in time are [`UtcTime`]s, identifiers
/// the 128-bit value of their UUID.
#[derive(Debug)]
pub struct Account {
    pub id: u128,
    pub email: String,
    pub password: String,
    pub nickname: String,
    pub tags: Vec<String>,
    pub tag_colors: Vec<TagWithColor>,
    pub group: Option<String>,
    pub token: Option<String>,
    pub refresh_token: Option<String>,
    pub token_expires_at: Option<UtcTime>,
    pub last_seat_count: Option<i32>,
    pub created_at: UtcTime,
    pub last_login_at: Option<UtcTime>,
    pub status: AccountStatus,
    pub plan_name: Option<String>,
    pub used_quota: Option<i32>,
    pub total_quota: Option<i32>,
    pub last_quota_update: Option<UtcTime>,
    pub subscription_expires_at: Option<UtcTime>,
    pub subscription_active: Option<bool>,
    pub windsurf_api_key: Option<String>,
    pub is_disabled: Option<bool>,
    pub is_team_owner: Option<bool>,
    pub billing_strategy: Option<i32>,
    pub daily_quota_remaining_percent: Option<i32>,
    pub weekly_quota_remaining_percent: Option<i32>,
    pub daily_quota_reset_at_unix: Option<i64>,
    pub weekly_quota_reset_at_unix: Option<i64>,
    pub overage_balance_micros: Option<i64>,
    pub sort_order: i32,
    pub auth_provider: Option<String>,
    pub devin_auth1_token: Option<String>,
    pub devin_account_id: Option<String>,
    pub devin_primary_org_id: Option<String>,
}

/// An account with its lists taken as sequences.
pub struct AccountView {
    pub id: u128,
    pub email: String,
    pub password: String,
    pub nickname: String,
    pub tags: Seq<String>,
    pub tag_colors: Seq<TagWithColor>,
    pub group: Option<String>,
    pub token: Option<String>,
    pub refresh_token: Option<String>,
    pub token_expires_at: Option<UtcTime>,
    pub last_seat_count: Option<i32>,
    pub created_at: UtcTime,
    pub last_login_at: Option<UtcTime>,
    pub status: AccountStatus,
    pub plan_name: Option<String>,
    pub used_quota: Option<i32>,
    pub total_quota: Option<i32>,
    pub last_quota_update: Option<UtcTime>,
    pub subscription_expires_at: Option<UtcTime>,
    pub subscription_active: Option<bool>,
    pub windsurf_api_key: Option<String>,
    pub is_disabled: Option<bool>,
    pub is_team_owner: Option<bool>,
    pub billing_strategy: Option<i32>,
    pub daily_quota_remaining_percent: Option<i32>,
    pub weekly_quota_remaining_percent: Option<i32>,
    pub daily_quota_reset_at_unix: Option<i64>,
    pub weekly_quota_reset_at_unix: Option<i64>,
    pub overage_balance_micros: Option<i64>,
    pub sort_order: i32,
    pub auth_provider: Option<String>,
    pub devin_auth1_token: Option<String>,
    pub devin_account_id: Option<String>,
    pub devin_primary_org_id: Option<String>,
}

impl View for Account {
    type V = AccountView;

    open spec fn view(&self) -> AccountView {
        AccountView {
            id: self.id,
            email: self.email,
            password: self.password,
            nickname: self.nickname,
            tags: self.tags@,
            tag_colors: self.tag_colors@,
            group: self.group,
            token: self.token,
            refresh_token: self.refresh_token,
            token_expires_at: self.token_expires_at,
            last_seat_count: self.last_seat_count,
            created_at: self.created_at,
            last_login_at: self.last_login_at,
            status: self.status,
            plan_name: self.plan_name,
            used_quota: self.used_quota,
            total_quota: self.total_quota,
            last_quota_update: self.last_quota_update,
            subscription_expires_at: self.subscription_expires_at,
            subscription_active: self.subscription_active,
            windsurf_api_key: self.windsurf_api_key,
            is_disabled: self.is_disabled,
            is_team_owner: self.is_team_owner,
            billing_strategy: self.billing_strategy,
            daily_quota_remaining_percent: self.daily_quota_remaining_percent,
            weekly_quota_remaining_percent: self.weekly_quota_remaining_percent,
            daily_quota_reset_at_unix: self.daily_quota_reset_at_unix,
            weekly_quota_reset_at_unix: self.weekly_quota_reset_at_unix,
            overage_balance_micros: self.overage_balance_micros,
            sort_order: self.sort_order,
            auth_provider: self.auth_provider,
            devin_auth1_token: self.devin_auth1_token,
            devin_account_id: self.devin_account_id,
            devin_primary_org_id: self.devin_primary_org_id,
        }
    }
}

/// The views of a sequence of accounts.
pub open spec fn account_views(s: Seq<Account>) -> Seq<AccountView> {
    s.map_values(|a: Account| a@)
}

/// Viewing a sequence with one more account appends that account's view.
pub proof fn lemma_views_push(s: Seq<Account>, a: Account)
    ensures
        account_views(s.push(a)) == account_views(s).push(a@),
{
    assert(account_views(s.push(a)) =~= account_views(s).push(a@));
}

/// The account that [`Account::new`] makes: the given identity, creation time and
/// texts; no tags, no group, no tokens, no quota or plan data, inactive, sort order 0.
pub open spec fn new_account_view(
    id: u128,
    created_at: UtcTime,
    email: String,
    password: String,
    nickname: String,
) -> AccountView {
    AccountView {
        id,
        email,
        password,
        nickname,
        tags: Seq::empty(),
        tag_colors: Seq::empty(),
        group: None,
        token: None,
        refresh_token: None,
        token_expires_at: None,
        last_seat_count: None,
        created_at,
        last_login_at: None,
        status: AccountStatus::Inactive,
        plan_name: None,
        used_quota: None,
        total_quota: None,
        last_quota_update: None,
        subscription_expires_at: None,
        subscription_active: None,
        windsurf_api_key: None,
        is_disabled: None,
        is_team_owner: None,
        billing_strategy: None,
        daily_quota_remaining_percent: None,
        weekly_quota_remaining_percent: None,
        daily_quota_reset_at_unix: None,
        weekly_quota_reset_at_unix: None,
        overage_balance_micros: None,
        sort_order: 0,
        auth_provider: None,
        devin_auth1_token: None,
        devin_account_id: None,
        devin_primary_org_id: None,
    }
}

/// Whether an account signs in through Devin sessions (`auth_provider == "devin"`).
pub open spec fn is_devin(a: AccountView) -> bool {
    a.auth_provider matches Some(p) && p@ == "devin"@
}

/// A copy of a tag list.
pub fn copy_tag_colors(v: &Vec<TagWithColor>) -> (r: Vec<TagWithColor>)
    ensures
        r@ == v@,
{
    let mut r: Vec<TagWithColor> = Vec::new();
    let mut i: usize = 0;
    while i < v.len()
        invariant
            i <= v.len(),
            r@ == v@.take(i as int),
        decreases v.len() - i,
    {
        let t = TagWithColor { name: v[i].name.clone(), color: v[i].color.clone() };
        r.push(t);
        assert(r@ =~= v@.take(i + 1));
        i = i + 1;
    }
    assert(v@.take(v.len() as int) =~= v@);
    r
}

impl AccountStatus {
    /// A copy of the status.
    pub fn copied(&self) -> (r: AccountStatus)
        ensures
            r == *self,
    {
        match self {
            AccountStatus::Active => AccountStatus::Active,
            AccountStatus::Inactive => AccountStatus::Inactive,
            AccountStatus::Error(m) => AccountStatus::Error(m.clone()),
        }
    }
}

impl Account {
    /// A new account with the given identity, creation time and texts; every
    /// optional field is empty, the tag lists are empty, the status is inactive and
    /// the sort order 0.
    pub fn new(id: u128, created_at: UtcTime, email: String, password: String, nickname: String) -> (a: Account)
        ensures
            a@ == new_account_view(id, created_at, email, password, nickname),
    {
        let a = Account {
            id,
            email,
            password,
            nickname,
            tags: Vec::new(),
            tag_colors: Vec::new(),
            group: None,
            token: None,
            refresh_token: None,
            token_expires_at: None,
            last_seat_count: None,
            created_at,
            last_login_at: None,
            status: AccountStatus::Inactive,
            plan_name: None,
            used_quota: None,
            total_quota: None,
            last_quota_update: None,
            subscription_expires_at: None,
            subscription_active: None,
            windsurf_api_key: None,
            is_disabled: None,
            is_team_owner: None,
            billing_strategy: None,
            daily_quota_remaining_percent: None,
            weekly_quota_remaining_percent: None,
            daily_quota_reset_at_unix: None,
            weekly_quota_reset_at_unix: None,
            overage_balance_micros: None,
            sort_order: 0,
            auth_provider: None,
            devin_auth1_token: None,
            devin_account_id: None,
            devin_primary_org_id: None,
        };
        assert(a@.tags =~= Seq::<String>::empty());
        assert(a@.tag_colors =~= Seq::<TagWithColor>::empty());
        a
    }

    /// A field-by-field copy of the account.
    pub fn copied(&self) -> (r: Account)
        ensures
            r@ == self@,
    {
        Account {
            id: self.id,
            email: self.email.clone(),
            password: self.password.clone(),
            nickname: self.nickname.clone(),
            tags: copy_texts(&self.tags),
            tag_colors: copy_tag_colors(&self.tag_colors),
            group: copy_opt_text(&self.group),
            token: copy_opt_text(&self.token),
            refresh_token: copy_opt_text(&self.refresh_token),
            token_expires_at: self.token_expires_at,
            last_seat_count: self.last_seat_count,
            created_at: self.created_at,
            last_login_at: self.last_login_at,
            status: self.status.copied(),
            plan_name: copy_opt_text(&self.plan_name),
            used_quota: self.used_quota,
            total_quota: self.total_quota,
            last_quota_update: self.last_quota_update,
            subscription_expires_at: self.subscription_expires_at,
            subscription_active: self.subscription_active,
            windsurf_api_key: copy_opt_text(&self.windsurf_api_key),
            is_disabled: self.is_disabled,
            is_team_owner: self.is_team_owner,
            billing_strategy: self.billing_strategy,
            daily_quota_remaining_percent: self.daily_quota_remaining_percent,
            weekly_quota_remaining_percent: self.weekly_quota_remaining_percent,
            daily_quota_reset_at_unix: self.daily_quota_reset_at_unix,
            weekly_quota_reset_at_unix: self.weekly_quota_reset_at_unix,
            overage_balance_micros: self.overage_balance_micros,
            sort_order: self.sort_order,
            auth_provider: copy_opt_text(&self.auth_provider),
            devin_auth1_token: copy_opt_text(&self.devin_auth1_token),
            devin_account_id: copy_opt_text(&self.devin_account_id),
            devin_primary_org_id: copy_opt_text(&self.devin_primary_org_id),
        }
    }

    /// Whether the account signs in through Devin sessions.
    pub fn is_devin_account(&self) -> (b: bool)
        ensures
            b == is_devin(self@),
    {
        match &self.auth_provider {
            Some(p) => text_eq(p.as_str(), "devin"),
            None => false,
        }
    }
}

/// Kind of an operation-log entry.
#[derive(Clone, Copy, Debug, PartialEq, Eq, Structural)]
pub enum OperationType {
    AddAccount,
    EditAccount,
    DeleteAccount,
}

/// Outcome of a logged operation.
#[derive(Clone, Copy, Debug, PartialEq, Eq, Structural)]
pub enum OperationStatus {
    Success,
    Failed,
}

/// An entry of the operation log.
#[derive(Debug)]
pub struct OperationLog {
    pub id: u128,
    pub timestamp: UtcTime,
    pub operation_type: OperationType,
    pub status: OperationStatus,
    pub message: String,
    pub account_id: Option<u128>,
    pub account_email: Option<String>,
}

impl OperationLog {
    /// A copy of the entry.
    pub fn copied(&self) -> (r: OperationLog)
        ensures
            r == *self,
    {
        OperationLog {
            id: self.id,
            timestamp: self.timestamp,
            operation_type: self.operation_type,
            status: self.status,
            message: self.message.clone(),
            account_id: self.account_id,
            account_email: copy_opt_text(&self.account_email),
        }
    }
}

/// Application settings that the library reads.
#[derive(Debug)]
pub struct Settings {
    pub api_enabled: bool,
    pub api_host: String,
    pub api_port: u16,
    pub backup_max_count: u32,
}

impl Settings {
    /// A copy of the settings.
    pub fn copied(&self) -> (r: Settings)
        ensures
            r == *self,
    {
        Settings {
            api_enabled: self.api_enabled,
            api_host: self.api_host.clone(),
            api_port: self.api_port,
            backup_max_count: self.backup_max_count,
        }
    }
}

} // verus!
