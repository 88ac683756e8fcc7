//! The orders in which the account list can be shown.
use vstd::prelude::*;
use crate::data_store::DataStore;
use crate::model::{account_views, Account, AccountView};
use crate::sorting::{is_permutation, key_views, stable_order, stably_sorted, KeySpec, SortKey};
use crate::text::{lowercase, text_eq, to_lower};
use crate::time::UtcTime;

verus! {

/// The field the account list is ordered by.
#[derive(Clone, Copy, Debug, PartialEq, Eq, Structural)]
pub enum SortField {
    Email,
    CreatedAt,
    UsedQuota,
    RemainingQuota,
    TokenExpiresAt,
    SubscriptionExpiresAt,
    PlanName,
    DailyQuotaRemaining,
    WeeklyQuotaRemaining,
}

/// Ascending or descending.
#[derive(Clone, Copy, Debug, PartialEq, Eq, Structural)]
pub enum SortDirection {
    Asc,
    Desc,
}

/// Rank of a plan name: enterprise 5, teams 4, pro 3, trial 2, free 1 (compared
/// after lower-casing), anything else or no plan 0.
pub open spec fn plan_priority(plan: Option<String>) -> int {
    match plan {
        Some(p) => {
            let l = lowercase(p@);
            if l == "enterprise"@ {
                5
            } else if l == "teams"@ {
                4
            } else if l == "pro"@ {
                3
            } else if l == "trial"@ {
                2
            } else if l == "free"@ {
                1
            } else {
                0
            }
        },
        None => 0,
    }
}

/// A key that puts present values first, in increasing order, and absent ones last.
pub open spec fn opt_time_key(t: Option<UtcTime>) -> KeySpec {
    match t {
        Some(x) => KeySpec { text: Seq::empty(), a: 0, b: x.secs as int, c: x.nanos as int },
        None => KeySpec { text: Seq::empty(), a: 1, b: 0, c: 0 },
    }
}

/// A key that puts present values first, in increasing order, and absent ones last.
pub open spec fn opt_int_key(v: Option<i32>) -> KeySpec {
    match v {
        Some(x) => KeySpec { text: Seq::empty(), a: 0, b: x as int, c: 0 },
        None => KeySpec { text: Seq::empty(), a: 1, b: 0, c: 0 },
    }
}

/// An optional quota, absent taken as 0.
pub open spec fn quota_or_zero(v: Option<i32>) -> int {
    match v {
        Some(x) => x as int,
        None => 0,
    }
}

/// The key account `a` is ordered by for `field`, before any reversal.
pub open spec fn account_key(a: AccountView, field: SortField) -> KeySpec {
    match field {
        SortField::Email => KeySpec { text: lowercase(a.email@), a: 0, b: 0, c: 0 },
        SortField::CreatedAt => KeySpec {
            text: Seq::empty(),
            a: a.created_at.secs as int,
            b: a.created_at.nanos as int,
            c: 0,
        },
        SortField::UsedQuota => KeySpec { text: Seq::empty(), a: quota_or_zero(a.used_quota), b: 0, c: 0 },
        SortField::RemainingQuota => KeySpec {
            text: Seq::empty(),
            a: quota_or_zero(a.total_quota) - quota_or_zero(a.used_quota),
            b: 0,
            c: 0,
        },
        SortField::TokenExpiresAt => opt_time_key(a.token_expires_at),
        SortField::SubscriptionExpiresAt => opt_time_key(a.subscription_expires_at),
        SortField::PlanName => KeySpec { text: Seq::empty(), a: -plan_priority(a.plan_name), b: 0, c: 0 },
        SortField::DailyQuotaRemaining => opt_int_key(a.daily_quota_remaining_percent),
        SortField::WeeklyQuotaRemaining => opt_int_key(a.weekly_quota_remaining_percent),
    }
}

/// The keys of a list of accounts for `field`.
pub open spec fn account_keys(s: Seq<AccountView>, field: SortField) -> Seq<KeySpec> {
    s.map_values(|a: AccountView| account_key(a, field))
}

/// Whether the stable order is reversed at the end: descending for every field but
/// the plan, whose stable order already puts the highest plan first, and ascending
/// for the plan.
pub open spec fn reversed(field: SortField, dir: SortDirection) -> bool {
    (dir == SortDirection::Desc && field != SortField::PlanName) || (dir == SortDirection::Asc
        && field == SortField::PlanName)
}

/// The accounts of `s` listed in the order `p`.
pub open spec fn arrange(s: Seq<AccountView>, p: Seq<usize>) -> Seq<AccountView> {
    Seq::new(p.len(), |k: int| s[p[k] as int])
}

/// `v` is the accounts of `s` as listed for `field` and `dir`: in the order of a
/// stable sort of their keys, reversed when [`reversed`] says so.
pub open spec fn sorted_listing(s: Seq<AccountView>, field: SortField, dir: SortDirection, v: Seq<AccountView>) -> bool {
    exists|p: Seq<usize>|
        #[trigger] is_permutation(p, s.len()) && stably_sorted(account_keys(s, field), p) && v == if reversed(
            field,
            dir,
        ) {
            arrange(s, p).reverse()
        } else {
            arrange(s, p)
        }
}

/// `RemainingQuota` keys are computed in `i32`: the difference must fit.
pub open spec fn remaining_fits(s: Seq<AccountView>) -> bool {
    forall|i: int|
        0 <= i < s.len() ==> i32::MIN <= #[trigger] quota_or_zero(s[i].total_quota) - quota_or_zero(
            s[i].used_quota,
        ) <= i32::MAX
}

/// Rank of the plan of `plan`, as [`plan_priority`] gives it.
pub fn plan_rank(plan: &Option<String>) -> (r: i32)
    ensures
        r == plan_priority(*plan),
{
    match plan {
        Some(p) => {
            let l = to_lower(p.as_str());
            if text_eq(l.as_str(), "enterprise") {
                5
            } else if text_eq(l.as_str(), "teams") {
                4
            } else if text_eq(l.as_str(), "pro") {
                3
            } else if text_eq(l.as_str(), "trial") {
                2
            } else if text_eq(l.as_str(), "free") {
                1
            } else {
                0
            }
        },
        None => 0,
    }
}

fn opt_time_sort_key(t: Option<UtcTime>) -> (k: SortKey)
    ensures
        k@ == opt_time_key(t),
{
    match t {
        Some(x) => SortKey { text: String::new(), a: 0, b: x.secs as i128, c: x.nanos as i128 },
        None => SortKey { text: String::new(), a: 1, b: 0, c: 0 },
    }
}

fn opt_int_sort_key(v: Option<i32>) -> (k: SortKey)
    ensures
        k@ == opt_int_key(v),
{
    match v {
        Some(x) => SortKey { text: String::new(), a: 0, b: x as i128, c: 0 },
        None => SortKey { text: String::new(), a: 1, b: 0, c: 0 },
    }
}

fn or_zero(v: Option<i32>) -> (r: i32)
    ensures
        r == quota_or_zero(v),
{
    match v {
        Some(x) => x,
        None => 0,
    }
}

/// The key of account `a` for `field`.
pub fn sort_key_of(a: &Account, field: SortField) -> (k: SortKey)
    requires
        field == SortField::RemainingQuota ==> i32::MIN <= quota_or_zero(a.total_quota)
            - quota_or_zero(a.used_quota) <= i32::MAX,
    ensures
        k@ == account_key(a@, field),
{
    let k = match field {
        SortField::Email => SortKey { text: to_lower(a.email.as_str()), a: 0, b: 0, c: 0 },
        SortField::CreatedAt => SortKey {
            text: String::new(),
            a: a.created_at.secs as i128,
            b: a.created_at.nanos as i128,
            c: 0,
        },
        SortField::UsedQuota => SortKey { text: String::new(), a: or_zero(a.used_quota) as i128, b: 0, c: 0 },
        SortField::RemainingQuota => {
            let rest = or_zero(a.total_quota) - or_zero(a.used_quota);
            SortKey { text: String::new(), a: rest as i128, b: 0, c: 0 }
        },
        SortField::TokenExpiresAt => opt_time_sort_key(a.token_expires_at),
        SortField::SubscriptionExpiresAt => opt_time_sort_key(a.subscription_expires_at),
        SortField::PlanName => {
            let rank = plan_rank(&a.plan_name);
            SortKey { text: String::new(), a: -(rank as i128), b: 0, c: 0 }
        },
        SortField::DailyQuotaRemaining => opt_int_sort_key(a.daily_quota_remaining_percent),
        SortField::WeeklyQuotaRemaining => opt_int_sort_key(a.weekly_quota_remaining_percent),
    };
    k
}

/// The accounts of `accounts` stably sorted by `field` and then reversed when
/// [`reversed`] says so.
pub fn sort_accounts(accounts: &Vec<Account>, field: SortField, dir: SortDirection) -> (r: Vec<Account>)
    requires
        field == SortField::RemainingQuota ==> remaining_fits(account_views(accounts@)),
    ensures
        sorted_listing(account_views(accounts@), field, dir, account_views(r@)),
{
    let ghost views = account_views(accounts@);
    let mut keys: Vec<SortKey> = Vec::new();
    let mut i: usize = 0;
    while i < accounts.len()
        invariant
            i <= accounts.len(),
            views == account_views(accounts@),
            field == SortField::RemainingQuota ==> remaining_fits(views),
            key_views(keys@) == account_keys(views, field).take(i as int),
        decreases accounts.len() - i,
    {
        proof {
            if field == SortField::RemainingQuota {
                assert(views[i as int] == accounts@[i as int]@);
                assert(i32::MIN <= quota_or_zero(views[i as int].total_quota) - quota_or_zero(
                    views[i as int].used_quota) <= i32::MAX);
            }
        }
        let k = sort_key_of(&accounts[i], field);
        let ghost kk = keys@;
        keys.push(k);
        proof {
            assert(keys@ == kk.push(k));
            assert(views[i as int] == accounts@[i as int]@);
            crate::sorting::lemma_key_views_push(kk, k);
            assert(key_views(keys@) =~= account_keys(views, field).take(i + 1));
        }
        i = i + 1;
    }
    assert(account_keys(views, field).take(accounts.len() as int) =~= account_keys(views, field));
    let p = stable_order(&keys);
    let n = accounts.len();
    let rev = match (field, dir) {
        (SortField::PlanName, SortDirection::Asc) => true,
        (SortField::PlanName, SortDirection::Desc) => false,
        (_, SortDirection::Desc) => true,
        (_, SortDirection::Asc) => false,
    };
    assert(rev == reversed(field, dir));
    let mut r: Vec<Account> = Vec::new();
    let mut k: usize = 0;
    while k < n
        invariant
            n == accounts.len(),
            n == p@.len(),
            k <= n,
            views == account_views(accounts@),
            is_permutation(p@, n as nat),
            account_views(r@) == if rev {
                arrange(views, p@).reverse().take(k as int)
            } else {
                arrange(views, p@).take(k as int)
            },
        decreases n - k,
    {
        let pos = if rev {
            p[n - 1 - k]
        } else {
            p[k]
        };
        assert(pos < n);
        let c = accounts[pos].copied();
        let ghost rr = r@;
        r.push(c);
        proof {
            assert(r@ == rr.push(c));
            crate::model::lemma_views_push(rr, c);
            assert(c@ == views[pos as int]);
            if rev {
                assert(arrange(views, p@).reverse().take(k + 1) =~= arrange(views, p@).reverse().take(
                    k as int,
                ).push(views[pos as int]));
            } else {
                assert(arrange(views, p@).take(k + 1) =~= arrange(views, p@).take(k as int).push(
                    views[pos as int],
                ));
            }
        }
        k = k + 1;
    }
    proof {
        assert(arrange(views, p@).reverse().take(n as int) =~= arrange(views, p@).reverse());
        assert(arrange(views, p@).take(n as int) =~= arrange(views, p@));
        assert(key_views(keys@) == account_keys(views, field));
    }
    r
}

impl DataStore {
    /// All accounts, ordered by `field` in direction `dir`: a stable sort by the
    /// field's key (e-mail lower-cased; creation time; used quota or 0; total minus
    /// used quota; token or subscription expiry, present ones first; plan rank,
    /// highest first; daily or weekly quota left, present ones first), reversed for
    /// descending order, except for the plan, which is reversed for ascending order.
    pub fn get_sorted_accounts(&self, field: SortField, dir: SortDirection) -> (r: Vec<Account>)
        requires
            field == SortField::RemainingQuota ==> remaining_fits(self.account_store@),
        ensures
            sorted_listing(self.account_store@, field, dir, account_views(r@)),
    {
        let accounts = self.account_store.get_all_accounts();
        sort_accounts(&accounts, field, dir)
    }
}

} // verus!
