//! Properties of the library that span several operations.
use vstd::prelude::*;
use vstd::set_lib::{lemma_int_range, lemma_subset_equality, set_int_range};
use crate::account_order::{
    account_key, account_keys, arrange, plan_priority, reversed, sorted_listing, SortDirection,
    SortField,
};
use crate::account_store::{first_present, has_email, has_id, ids_distinct, index_of};
use crate::backups::{
    backup_listing, info_of, is_backup_name, listed, listed_entries, newest_first_key, pick, BackupEntry,
    BackupInfo,
};
use crate::bulk_ops::{merge_accounts, merge_groups};
use crate::devin::{
    refresh_inputs, with_devin_session, with_refreshed_session, with_user_info, DevinCredentials,
    UserInfo, WindsurfPostAuthResult,
};
use crate::model::AccountStatus;
use crate::data_store::{first_group, last_n, newest_logs, MAX_LOGS};
use crate::model::{AccountView, OperationLog};
use crate::sorting::{
    is_permutation, key_lt, lemma_ranked_asymmetric, lemma_sorted_all_pairs, lemma_text_lt_asymmetric,
    ranked_before, stably_sorted, text_lt, KeySpec,
};
use crate::text::{has_text, lowercase};
use crate::time::{UtcTime, SESSION_PSEUDO_LIFETIME_SECS};

verus! {

/// The operation log never grows past `MAX_LOGS` entries through `add_log`, the
/// entry added is always the newest kept, and nothing is dropped while there is room.
pub proof fn law_log_is_bounded(s: Seq<OperationLog>, log: OperationLog)
    requires
        s.len() <= MAX_LOGS,
    ensures
        newest_logs(s.push(log)).len() <= MAX_LOGS,
        newest_logs(s.push(log)).last() == log,
        s.len() < MAX_LOGS ==> newest_logs(s.push(log)) == s.push(log),
{
}

/// A log limited to `n` entries gives the `n` newest (all of them when there are
/// fewer), oldest first.
pub proof fn law_log_limit(s: Seq<OperationLog>, n: nat)
    ensures
        last_n(s, n).len() == if s.len() < n {
            s.len()
        } else {
            n
        },
        forall|k: int|
            0 <= k < last_n(s, n).len() ==> #[trigger] last_n(s, n)[k] == s[s.len() - last_n(
                s,
                n,
            ).len() + k],
{
}

/// Reading an account back after inserting it under a fresh identifier gives the
/// account inserted, and identifiers stay distinct.
pub proof fn law_read_after_insert(s: Seq<AccountView>, a: AccountView)
    requires
        ids_distinct(s),
        !has_id(s, a.id),
    ensures
        ids_distinct(s.push(a)),
        has_id(s.push(a), a.id),
        s.push(a)[index_of(s.push(a), a.id)] == a,
{
    let t = s.push(a);
    assert(t[s.len() as int].id == a.id);
    let k = index_of(t, a.id);
    if k != s.len() {
        assert(s[k].id == a.id);
    }
}

/// Reading an account back after replacing the stored account of its identifier
/// gives the replacement, and identifiers stay distinct.
pub proof fn law_read_after_update(s: Seq<AccountView>, a: AccountView)
    requires
        ids_distinct(s),
        has_id(s, a.id),
    ensures
        ids_distinct(s.update(index_of(s, a.id), a)),
        s.update(index_of(s, a.id), a)[index_of(s.update(index_of(s, a.id), a), a.id)] == a,
{
    let i = index_of(s, a.id);
    let t = s.update(i, a);
    assert(t[i].id == a.id);
    let k = index_of(t, a.id);
    if k != i {
        assert(t[k] == s[k]);
        assert(s[k].id == s[i].id);
    }
}

/// Renaming a group and renaming it back restores the group list, when the
/// intermediate name was free.
pub proof fn law_rename_group_round_trip(groups: Seq<String>, old_name: String, new_name: String)
    requires
        has_text(groups, old_name@),
        !has_text(groups, new_name@),
        groups[first_group(groups, old_name@)] == old_name,
    ensures
        has_text(groups.update(first_group(groups, old_name@), new_name), new_name@),
        ({
            let renamed = groups.update(first_group(groups, old_name@), new_name);
            renamed.update(first_group(renamed, new_name@), old_name) == groups
        }),
{
    crate::data_store::lemma_first_group(groups, old_name@);
    let i = first_group(groups, old_name@);
    let r = groups.update(i, new_name);
    assert(has_text(r, new_name@)) by {
        assert(r[i] == new_name);
    }
    crate::data_store::lemma_first_group(r, new_name@);
    assert(r[i]@ == new_name@);
    let j = first_group(r, new_name@);
    assert(0 <= j < r.len() && r[j]@ == new_name@);
    if j != i {
        assert(r[j] == groups[j]);
    }
    assert(r.update(j, old_name) =~= groups);
}

/// The place at which `p` lists position `i`.
pub open spec fn place_of(p: Seq<usize>, i: int) -> int {
    choose|k: int| 0 <= k < p.len() && p[k] == i
}

/// A permutation of `0..n` lists every position: a sorted account list holds every
/// stored account, and the same number of them.
pub proof fn law_sorted_list_is_complete(s: Seq<AccountView>, p: Seq<usize>)
    requires
        is_permutation(p, s.len()),
    ensures
        arrange(s, p).len() == s.len(),
        forall|i: int|
            0 <= i < s.len() ==> {
                let k = #[trigger] place_of(p, i);
                &&& 0 <= k < s.len()
                &&& p[k] == i
                &&& arrange(s, p)[k] == s[i]
            },
{
    lemma_permutation_onto(p, s.len());
    assert forall|i: int| 0 <= i < s.len() implies {
        let k = #[trigger] place_of(p, i);
        &&& 0 <= k < s.len()
        &&& p[k] == i
        &&& arrange(s, p)[k] == s[i]
    } by {
        let c = place_of(p, i);
        assert(arrange(s, p)[c] == s[p[c] as int]);
    }
}

/// Deleting a batch accounts for every identifier given: each one either was
/// deleted or is reported as not found, never both.
pub proof fn law_batch_delete_partition(s: Seq<AccountView>, ids: Seq<u128>)
    ensures
        forall|k: u128|
            ids.contains(k) ==> (#[trigger] first_present(s, ids).contains(k) != ids.filter(
                |x: u128| !has_id(s, x),
            ).contains(k)),
{
    crate::data_store::lemma_first_present_members(s, ids);
    assert forall|k: u128| ids.contains(k) implies (#[trigger] first_present(s, ids).contains(k)
        != ids.filter(|x: u128| !has_id(s, x)).contains(k)) by {
        let f = ids.filter(|x: u128| !has_id(s, x));
        let m = choose|m: int| 0 <= m < ids.len() && ids[m] == k;
        if !has_id(s, k) {
            ids.lemma_filter_contains(|x: u128| !has_id(s, x), m);
        } else if f.contains(k) {
            let j = choose|j: int| 0 <= j < f.len() && #[trigger] f[j] == k;
            ids.lemma_filter_pred(|x: u128| !has_id(s, x), j);
        }
    }
}

/// No two texts of `s` are equal.
pub open spec fn texts_distinct(s: Seq<String>) -> bool {
    forall|i: int, j: int| 0 <= i < s.len() && 0 <= j < s.len() && i != j ==> s[i]@ != s[j]@
}

/// No two accounts share an e-mail address.
pub open spec fn emails_distinct(s: Seq<AccountView>) -> bool {
    forall|i: int, j: int| 0 <= i < s.len() && 0 <= j < s.len() && i != j ==> s[i].email@ != s[j].email@
}

/// Adding a group that is missing, and importing groups, never make two groups of
/// the same name; neither does renaming a group to a free name.
pub proof fn law_groups_stay_distinct(groups: Seq<String>, name: String, imported: Seq<String>)
    requires
        texts_distinct(groups),
    ensures
        !has_text(groups, name@) ==> texts_distinct(groups.push(name)),
        texts_distinct(merge_groups(groups, imported).0),
        has_text(groups, name@) ==> forall|other: String|
            !has_text(groups, other@) ==> #[trigger] texts_distinct(
                groups.update(first_group(groups, name@), other),
            ),
    decreases imported.len(),
{
    if imported.len() > 0 {
        law_groups_stay_distinct(groups, name, imported.drop_last());
        let (t, n) = merge_groups(groups, imported.drop_last());
        if !has_text(t, imported.last()@) {
            assert forall|i: int, j: int| 0 <= i < t.push(imported.last()).len() && 0 <= j < t.push(imported.last()).len() && i != j implies t.push(imported.last())[i]@ != t.push(imported.last())[j]@ by {
                if i < t.len() && j < t.len() {
                } else if i < t.len() {
                    assert(t[i]@ != imported.last()@);
                } else {
                    assert(t[j]@ != imported.last()@);
                }
            }
        }
    }
    if has_text(groups, name@) {
        crate::data_store::lemma_first_group(groups, name@);
        let k = first_group(groups, name@);
        assert forall|other: String| !has_text(groups, other@) implies #[trigger] texts_distinct(groups.update(k, other)) by {
            let u = groups.update(k, other);
            assert forall|i: int, j: int| 0 <= i < u.len() && 0 <= j < u.len() && i != j implies u[i]@ != u[j]@ by {
                if i == k {
                    assert(groups[j]@ != other@);
                } else if j == k {
                    assert(groups[i]@ != other@);
                }
            }
        }
    }
    if !has_text(groups, name@) {
        let t = groups.push(name);
        assert forall|i: int, j: int| 0 <= i < t.len() && 0 <= j < t.len() && i != j implies t[i]@ != t[j]@ by {
            if i < groups.len() && j < groups.len() {
            } else if i < groups.len() {
                assert(groups[i]@ != name@);
            } else {
                assert(groups[j]@ != name@);
            }
        }
    }
}

/// Importing accounts by merging never stores two accounts with the same e-mail
/// address or the same identifier.
pub proof fn law_merge_keeps_accounts_distinct(s: Seq<AccountView>, a: Seq<AccountView>)
    requires
        emails_distinct(s),
        ids_distinct(s),
    ensures
        emails_distinct(merge_accounts(s, a).0),
        ids_distinct(merge_accounts(s, a).0),
    decreases a.len(),
{
    if a.len() > 0 {
        law_merge_keeps_accounts_distinct(s, a.drop_last());
        let (t, x, y) = merge_accounts(s, a.drop_last());
        let n = a.last();
        if !has_email(t, n.email@) && !has_id(t, n.id) {
            let u = t.push(n);
            assert forall|i: int, j: int| 0 <= i < u.len() && 0 <= j < u.len() && i != j implies u[i].email@ != u[j].email@ && u[i].id != u[j].id by {
                if i < t.len() && j < t.len() {
                } else if i < t.len() {
                    assert(t[i].email@ != n.email@);
                    assert(t[i].id != n.id);
                } else {
                    assert(t[j].email@ != n.email@);
                    assert(t[j].id != n.id);
                }
            }
        }
    }
}

/// A permutation of `0..n` lists every position somewhere.
pub proof fn lemma_permutation_onto(p: Seq<usize>, n: nat)
    requires
        is_permutation(p, n),
    ensures
        forall|i: int| 0 <= i < n ==> 0 <= #[trigger] place_of(p, i) < n && p[place_of(p, i)] == i,
{
    let q = p.map_values(|x: usize| x as int);
    assert(q.no_duplicates()) by {
        assert forall|a: int, b: int| 0 <= a < q.len() && 0 <= b < q.len() && a != b implies q[a] != q[b] by {
            assert(p[a] != p[b]);
        }
    }
    q.unique_seq_to_set();
    lemma_int_range(0, n as int);
    assert(q.to_set().subset_of(set_int_range(0, n as int))) by {
        assert forall|x: int| q.to_set().contains(x) implies set_int_range(0, n as int).contains(x) by {
            let k = choose|k: int| 0 <= k < q.len() && q[k] == x;
            assert(p[k] < n);
        }
    }
    lemma_subset_equality(q.to_set(), set_int_range(0, n as int));
    assert forall|i: int| 0 <= i < n implies 0 <= #[trigger] place_of(p, i) < n && p[place_of(p, i)] == i by {
        assert(set_int_range(0, n as int).contains(i));
        assert(q.to_set().contains(i));
        let k = choose|k: int| 0 <= k < q.len() && q[k] == i;
        assert(q[k] == p[k] as int);
    }
}

proof fn lemma_stable_prefix_equal(keys: Seq<KeySpec>, p: Seq<usize>, q: Seq<usize>, k: int)
    requires
        is_permutation(p, keys.len()),
        is_permutation(q, keys.len()),
        stably_sorted(keys, p),
        stably_sorted(keys, q),
        0 <= k <= keys.len(),
    ensures
        forall|j: int| 0 <= j < k ==> p[j] == q[j],
    decreases k,
{
    if k > 0 {
        lemma_stable_prefix_equal(keys, p, q, k - 1);
        let n = keys.len();
        let a = p[k - 1];
        let b = q[k - 1];
        if a != b {
            lemma_permutation_onto(p, n);
            lemma_permutation_onto(q, n);
            let m = place_of(p, b as int);
            let m2 = place_of(q, a as int);
            assert(p[m] == b);
            assert(q[m2] == a);
            if m < k - 1 {
                assert(p[m] == q[m]);
            }
            if m2 < k - 1 {
                assert(p[m2] == q[m2]);
            }
            assert(m > k - 1);
            assert(m2 > k - 1);
            lemma_sorted_all_pairs(keys, p, k - 1, m);
            lemma_sorted_all_pairs(keys, q, k - 1, m2);
            lemma_ranked_asymmetric(keys, a as int, b as int);
        }
    }
}

/// The stable order of a list of keys is unique: any two orders of all positions
/// that rank by key, ties kept in place, are the same. So the sorted account list
/// is fully determined.
pub proof fn law_stable_order_unique(keys: Seq<KeySpec>, p: Seq<usize>, q: Seq<usize>)
    requires
        is_permutation(p, keys.len()),
        is_permutation(q, keys.len()),
        stably_sorted(keys, p),
        stably_sorted(keys, q),
    ensures
        p == q,
{
    lemma_stable_prefix_equal(keys, p, q, keys.len() as int);
    assert(p =~= q);
}

/// For every field, the plan included, the account list in descending order is the
/// list in ascending order reversed.
pub proof fn law_desc_reverses_asc(s: Seq<AccountView>, field: SortField, asc: Seq<AccountView>, desc: Seq<AccountView>)
    requires
        sorted_listing(s, field, SortDirection::Asc, asc),
        sorted_listing(s, field, SortDirection::Desc, desc),
    ensures
        desc == asc.reverse(),
{
    let p = choose|p: Seq<usize>|
        #[trigger] is_permutation(p, s.len()) && stably_sorted(crate::account_order::account_keys(s, field), p)
            && asc == if reversed(field, SortDirection::Asc) {
            arrange(s, p).reverse()
        } else {
            arrange(s, p)
        };
    let q = choose|q: Seq<usize>|
        #[trigger] is_permutation(q, s.len()) && stably_sorted(crate::account_order::account_keys(s, field), q)
            && desc == if reversed(field, SortDirection::Desc) {
            arrange(s, q).reverse()
        } else {
            arrange(s, q)
        };
    assert(crate::account_order::account_keys(s, field).len() == s.len());
    law_stable_order_unique(crate::account_order::account_keys(s, field), p, q);
    assert(reversed(field, SortDirection::Asc) != reversed(field, SortDirection::Desc));
    assert(arrange(s, p).reverse().reverse() =~= arrange(s, p));
}

/// `x` comes before `y` or ties with it in key order.
pub open spec fn key_le(x: KeySpec, y: KeySpec) -> bool {
    key_lt(x, y) || (x.text == y.text && x.a == y.a && x.b == y.b && x.c == y.c)
}

/// No text comes before itself.
proof fn lemma_text_lt_irreflexive(x: Seq<char>)
    ensures
        !text_lt(x, x),
{
    if text_lt(x, x) {
        lemma_text_lt_asymmetric(x, x);
    }
}

/// Neighbours in a listing of the account list follow key order: ascending where
/// the stable order is kept, descending where it is reversed.
proof fn lemma_listing_neighbours(s: Seq<AccountView>, field: SortField, dir: SortDirection, v: Seq<AccountView>)
    requires
        sorted_listing(s, field, dir, v),
    ensures
        v.len() == s.len(),
        forall|k: int|
            0 <= k < v.len() - 1 ==> if reversed(field, dir) {
                key_le(account_key(#[trigger] v[k + 1], field), account_key(v[k], field))
            } else {
                key_le(account_key(#[trigger] v[k], field), account_key(v[k + 1], field))
            },
{
    let keys = account_keys(s, field);
    let p = choose|p: Seq<usize>|
        #[trigger] is_permutation(p, s.len()) && stably_sorted(keys, p) && v == if reversed(
            field,
            dir,
        ) {
            arrange(s, p).reverse()
        } else {
            arrange(s, p)
        };
    let n = s.len() as int;
    assert forall|k: int| 0 <= k < v.len() - 1 implies if reversed(field, dir) {
        key_le(account_key(#[trigger] v[k + 1], field), account_key(v[k], field))
    } else {
        key_le(account_key(v[k], field), account_key(v[k + 1], field))
    } by {
        if reversed(field, dir) {
            let j = n - 2 - k;
            assert(ranked_before(keys, p[j] as int, p[j + 1] as int));
            assert(v[k + 1] == s[p[j] as int]);
            assert(v[k] == s[p[j + 1] as int]);
            assert(keys[p[j] as int] == account_key(s[p[j] as int], field));
            assert(keys[p[j + 1] as int] == account_key(s[p[j + 1] as int], field));
        } else {
            assert(ranked_before(keys, p[k] as int, p[k + 1] as int));
            assert(v[k] == s[p[k] as int]);
            assert(v[k + 1] == s[p[k + 1] as int]);
            assert(keys[p[k] as int] == account_key(s[p[k] as int], field));
            assert(keys[p[k + 1] as int] == account_key(s[p[k + 1] as int], field));
        }
    }
}

/// Key order on keys without text compares their integers in turn.
proof fn lemma_plain_key_le(x: KeySpec, y: KeySpec)
    requires
        key_le(x, y),
        x.text == y.text,
    ensures
        x.a < y.a || (x.a == y.a && (x.b < y.b || (x.b == y.b && x.c <= y.c))),
{
    lemma_text_lt_irreflexive(x.text);
}

/// An optional quota, 0 when absent (`unwrap_or(0)`).
pub open spec fn quota_value(q: Option<i32>) -> int {
    match q {
        Some(x) => x as int,
        None => 0,
    }
}

/// What is left of an account's quota: its total quota minus its used quota, each
/// taken as 0 when absent.
pub open spec fn remaining_quota(a: AccountView) -> int {
    quota_value(a.total_quota) - quota_value(a.used_quota)
}

/// Listing by remaining quota orders the accounts by total minus used quota:
/// increasing in ascending order, decreasing in descending order.
pub proof fn law_remaining_quota_listing(s: Seq<AccountView>, dir: SortDirection, v: Seq<AccountView>)
    requires
        sorted_listing(s, SortField::RemainingQuota, dir, v),
    ensures
        v.len() == s.len(),
        dir == SortDirection::Asc ==> forall|k: int|
            0 <= k < v.len() - 1 ==> remaining_quota(#[trigger] v[k]) <= remaining_quota(v[k + 1]),
        dir == SortDirection::Desc ==> forall|k: int|
            0 <= k < v.len() - 1 ==> remaining_quota(#[trigger] v[k]) >= remaining_quota(v[k + 1]),
{
    let f = SortField::RemainingQuota;
    lemma_listing_neighbours(s, f, dir, v);
    assert forall|k: int| 0 <= k < v.len() - 1 implies (dir == SortDirection::Asc ==> remaining_quota(
        #[trigger] v[k],
    ) <= remaining_quota(v[k + 1])) && (dir == SortDirection::Desc ==> remaining_quota(v[k])
        >= remaining_quota(v[k + 1])) by {
        if reversed(f, dir) {
            lemma_plain_key_le(account_key(v[k + 1], f), account_key(v[k], f));
        } else {
            lemma_plain_key_le(account_key(v[k], f), account_key(v[k + 1], f));
        }
    }
}

/// Listing by used quota orders the accounts by used quota (0 when absent):
/// increasing in ascending order, decreasing in descending order.
pub proof fn law_used_quota_listing(s: Seq<AccountView>, dir: SortDirection, v: Seq<AccountView>)
    requires
        sorted_listing(s, SortField::UsedQuota, dir, v),
    ensures
        v.len() == s.len(),
        dir == SortDirection::Asc ==> forall|k: int|
            0 <= k < v.len() - 1 ==> quota_value((#[trigger] v[k]).used_quota) <= quota_value(
                v[k + 1].used_quota,
            ),
        dir == SortDirection::Desc ==> forall|k: int|
            0 <= k < v.len() - 1 ==> quota_value((#[trigger] v[k]).used_quota) >= quota_value(
                v[k + 1].used_quota,
            ),
{
    let f = SortField::UsedQuota;
    lemma_listing_neighbours(s, f, dir, v);
    assert forall|k: int| 0 <= k < v.len() - 1 implies (dir == SortDirection::Asc ==> quota_value(
        (#[trigger] v[k]).used_quota,
    ) <= quota_value(v[k + 1].used_quota)) && (dir == SortDirection::Desc ==> quota_value(
        v[k].used_quota,
    ) >= quota_value(v[k + 1].used_quota)) by {
        if reversed(f, dir) {
            lemma_plain_key_le(account_key(v[k + 1], f), account_key(v[k], f));
        } else {
            lemma_plain_key_le(account_key(v[k], f), account_key(v[k + 1], f));
        }
    }
}

/// `x` is no later than `y`.
pub open spec fn time_le(x: UtcTime, y: UtcTime) -> bool {
    x.secs < y.secs || (x.secs == y.secs && x.nanos <= y.nanos)
}

/// Listing by creation time orders the accounts by it: oldest first in ascending
/// order, newest first in descending order.
pub proof fn law_created_at_listing(s: Seq<AccountView>, dir: SortDirection, v: Seq<AccountView>)
    requires
        sorted_listing(s, SortField::CreatedAt, dir, v),
    ensures
        v.len() == s.len(),
        dir == SortDirection::Asc ==> forall|k: int|
            0 <= k < v.len() - 1 ==> time_le((#[trigger] v[k]).created_at, v[k + 1].created_at),
        dir == SortDirection::Desc ==> forall|k: int|
            0 <= k < v.len() - 1 ==> time_le(v[k + 1].created_at, (#[trigger] v[k]).created_at),
{
    let f = SortField::CreatedAt;
    lemma_listing_neighbours(s, f, dir, v);
    assert forall|k: int| 0 <= k < v.len() - 1 implies (dir == SortDirection::Asc ==> time_le(
        (#[trigger] v[k]).created_at,
        v[k + 1].created_at,
    )) && (dir == SortDirection::Desc ==> time_le(v[k + 1].created_at, v[k].created_at)) by {
        if reversed(f, dir) {
            lemma_plain_key_le(account_key(v[k + 1], f), account_key(v[k], f));
        } else {
            lemma_plain_key_le(account_key(v[k], f), account_key(v[k + 1], f));
        }
    }
}

/// An optional time `x` comes no later than `y` when absent times count as after
/// every present one.
pub open spec fn opt_time_le(x: Option<UtcTime>, y: Option<UtcTime>) -> bool {
    match (x, y) {
        (Some(a), Some(b)) => time_le(a, b),
        (Some(_), None) => true,
        (None, None) => true,
        (None, Some(_)) => false,
    }
}

/// Listing by token or subscription expiry puts the accounts with an expiry first,
/// earliest first, and those without last in ascending order; descending order is
/// the opposite.
pub proof fn law_expiry_listing(s: Seq<AccountView>, dir: SortDirection, v: Seq<AccountView>)
    requires
        sorted_listing(s, SortField::TokenExpiresAt, dir, v) || sorted_listing(
            s,
            SortField::SubscriptionExpiresAt,
            dir,
            v,
        ),
    ensures
        v.len() == s.len(),
        sorted_listing(s, SortField::TokenExpiresAt, dir, v) ==> (dir == SortDirection::Asc
            ==> forall|k: int|
            0 <= k < v.len() - 1 ==> opt_time_le(
                (#[trigger] v[k]).token_expires_at,
                v[k + 1].token_expires_at,
            )),
        sorted_listing(s, SortField::TokenExpiresAt, dir, v) ==> (dir == SortDirection::Desc
            ==> forall|k: int|
            0 <= k < v.len() - 1 ==> opt_time_le(
                v[k + 1].token_expires_at,
                (#[trigger] v[k]).token_expires_at,
            )),
        sorted_listing(s, SortField::SubscriptionExpiresAt, dir, v) ==> (dir == SortDirection::Asc
            ==> forall|k: int|
            0 <= k < v.len() - 1 ==> opt_time_le(
                (#[trigger] v[k]).subscription_expires_at,
                v[k + 1].subscription_expires_at,
            )),
        sorted_listing(s, SortField::SubscriptionExpiresAt, dir, v) ==> (dir == SortDirection::Desc
            ==> forall|k: int|
            0 <= k < v.len() - 1 ==> opt_time_le(
                v[k + 1].subscription_expires_at,
                (#[trigger] v[k]).subscription_expires_at,
            )),
{
    if sorted_listing(s, SortField::TokenExpiresAt, dir, v) {
        let f = SortField::TokenExpiresAt;
        lemma_listing_neighbours(s, f, dir, v);
        assert forall|k: int| 0 <= k < v.len() - 1 implies (dir == SortDirection::Asc ==> opt_time_le(
            (#[trigger] v[k]).token_expires_at,
            v[k + 1].token_expires_at,
        )) && (dir == SortDirection::Desc ==> opt_time_le(
            v[k + 1].token_expires_at,
            v[k].token_expires_at,
        )) by {
            if reversed(f, dir) {
                lemma_plain_key_le(account_key(v[k + 1], f), account_key(v[k], f));
            } else {
                lemma_plain_key_le(account_key(v[k], f), account_key(v[k + 1], f));
            }
        }
    }
    if sorted_listing(s, SortField::SubscriptionExpiresAt, dir, v) {
        let f = SortField::SubscriptionExpiresAt;
        lemma_listing_neighbours(s, f, dir, v);
        assert forall|k: int| 0 <= k < v.len() - 1 implies (dir == SortDirection::Asc ==> opt_time_le(
            (#[trigger] v[k]).subscription_expires_at,
            v[k + 1].subscription_expires_at,
        )) && (dir == SortDirection::Desc ==> opt_time_le(
            v[k + 1].subscription_expires_at,
            v[k].subscription_expires_at,
        )) by {
            if reversed(f, dir) {
                lemma_plain_key_le(account_key(v[k + 1], f), account_key(v[k], f));
            } else {
                lemma_plain_key_le(account_key(v[k], f), account_key(v[k + 1], f));
            }
        }
    }
}

/// Listing by plan puts the highest-ranked plan first in descending order and last
/// in ascending order.
pub proof fn law_plan_listing(s: Seq<AccountView>, dir: SortDirection, v: Seq<AccountView>)
    requires
        sorted_listing(s, SortField::PlanName, dir, v),
    ensures
        v.len() == s.len(),
        dir == SortDirection::Desc ==> forall|k: int|
            0 <= k < v.len() - 1 ==> plan_priority((#[trigger] v[k]).plan_name) >= plan_priority(
                v[k + 1].plan_name,
            ),
        dir == SortDirection::Asc ==> forall|k: int|
            0 <= k < v.len() - 1 ==> plan_priority((#[trigger] v[k]).plan_name) <= plan_priority(
                v[k + 1].plan_name,
            ),
{
    let f = SortField::PlanName;
    lemma_listing_neighbours(s, f, dir, v);
    assert forall|k: int| 0 <= k < v.len() - 1 implies (dir == SortDirection::Desc ==> plan_priority(
        (#[trigger] v[k]).plan_name,
    ) >= plan_priority(v[k + 1].plan_name)) && (dir == SortDirection::Asc ==> plan_priority(
        v[k].plan_name,
    ) <= plan_priority(v[k + 1].plan_name)) by {
        if reversed(f, dir) {
            lemma_plain_key_le(account_key(v[k + 1], f), account_key(v[k], f));
        } else {
            lemma_plain_key_le(account_key(v[k], f), account_key(v[k + 1], f));
        }
    }
}

/// An optional percentage `x` comes no later than `y` when absent ones count as after
/// every present one.
pub open spec fn opt_percent_le(x: Option<i32>, y: Option<i32>) -> bool {
    match (x, y) {
        (Some(a), Some(b)) => a <= b,
        (Some(_), None) => true,
        (None, None) => true,
        (None, Some(_)) => false,
    }
}

/// Listing by the daily or weekly quota left puts the accounts that report it
/// first, lowest first, and the others last in ascending order; descending order is
/// the opposite.
pub proof fn law_quota_left_listing(s: Seq<AccountView>, dir: SortDirection, v: Seq<AccountView>)
    requires
        sorted_listing(s, SortField::DailyQuotaRemaining, dir, v) || sorted_listing(
            s,
            SortField::WeeklyQuotaRemaining,
            dir,
            v,
        ),
    ensures
        v.len() == s.len(),
        sorted_listing(s, SortField::DailyQuotaRemaining, dir, v) ==> (dir == SortDirection::Asc
            ==> forall|k: int|
            0 <= k < v.len() - 1 ==> opt_percent_le(
                (#[trigger] v[k]).daily_quota_remaining_percent,
                v[k + 1].daily_quota_remaining_percent,
            )),
        sorted_listing(s, SortField::DailyQuotaRemaining, dir, v) ==> (dir == SortDirection::Desc
            ==> forall|k: int|
            0 <= k < v.len() - 1 ==> opt_percent_le(
                v[k + 1].daily_quota_remaining_percent,
                (#[trigger] v[k]).daily_quota_remaining_percent,
            )),
        sorted_listing(s, SortField::WeeklyQuotaRemaining, dir, v) ==> (dir == SortDirection::Asc
            ==> forall|k: int|
            0 <= k < v.len() - 1 ==> opt_percent_le(
                (#[trigger] v[k]).weekly_quota_remaining_percent,
                v[k + 1].weekly_quota_remaining_percent,
            )),
        sorted_listing(s, SortField::WeeklyQuotaRemaining, dir, v) ==> (dir == SortDirection::Desc
            ==> forall|k: int|
            0 <= k < v.len() - 1 ==> opt_percent_le(
                v[k + 1].weekly_quota_remaining_percent,
                (#[trigger] v[k]).weekly_quota_remaining_percent,
            )),
{
    if sorted_listing(s, SortField::DailyQuotaRemaining, dir, v) {
        let f = SortField::DailyQuotaRemaining;
        lemma_listing_neighbours(s, f, dir, v);
        assert forall|k: int| 0 <= k < v.len() - 1 implies (dir == SortDirection::Asc ==> opt_percent_le(
            (#[trigger] v[k]).daily_quota_remaining_percent,
            v[k + 1].daily_quota_remaining_percent,
        )) && (dir == SortDirection::Desc ==> opt_percent_le(
            v[k + 1].daily_quota_remaining_percent,
            v[k].daily_quota_remaining_percent,
        )) by {
            if reversed(f, dir) {
                lemma_plain_key_le(account_key(v[k + 1], f), account_key(v[k], f));
            } else {
                lemma_plain_key_le(account_key(v[k], f), account_key(v[k + 1], f));
            }
        }
    }
    if sorted_listing(s, SortField::WeeklyQuotaRemaining, dir, v) {
        let f = SortField::WeeklyQuotaRemaining;
        lemma_listing_neighbours(s, f, dir, v);
        assert forall|k: int| 0 <= k < v.len() - 1 implies (dir == SortDirection::Asc ==> opt_percent_le(
            (#[trigger] v[k]).weekly_quota_remaining_percent,
            v[k + 1].weekly_quota_remaining_percent,
        )) && (dir == SortDirection::Desc ==> opt_percent_le(
            v[k + 1].weekly_quota_remaining_percent,
            v[k].weekly_quota_remaining_percent,
        )) by {
            if reversed(f, dir) {
                lemma_plain_key_le(account_key(v[k + 1], f), account_key(v[k], f));
            } else {
                lemma_plain_key_le(account_key(v[k], f), account_key(v[k + 1], f));
            }
        }
    }
}

/// Listing by e-mail orders the accounts by their lower-cased addresses, compared
/// by character codes: each address is no greater than the next in ascending order
/// and no smaller in descending order.
pub proof fn law_email_listing(s: Seq<AccountView>, dir: SortDirection, v: Seq<AccountView>)
    requires
        sorted_listing(s, SortField::Email, dir, v),
    ensures
        v.len() == s.len(),
        dir == SortDirection::Asc ==> forall|k: int|
            0 <= k < v.len() - 1 ==> !text_lt(
                lowercase(v[k + 1].email@),
                lowercase((#[trigger] v[k]).email@),
            ),
        dir == SortDirection::Desc ==> forall|k: int|
            0 <= k < v.len() - 1 ==> !text_lt(
                lowercase((#[trigger] v[k]).email@),
                lowercase(v[k + 1].email@),
            ),
{
    let f = SortField::Email;
    lemma_listing_neighbours(s, f, dir, v);
    assert forall|k: int| 0 <= k < v.len() - 1 implies (dir == SortDirection::Asc ==> !text_lt(
        lowercase(v[k + 1].email@),
        lowercase((#[trigger] v[k]).email@),
    )) && (dir == SortDirection::Desc ==> !text_lt(lowercase(v[k].email@), lowercase(v[k + 1].email@)))
        by {
        let x = lowercase(v[k].email@);
        let y = lowercase(v[k + 1].email@);
        lemma_text_lt_irreflexive(x);
        if text_lt(x, y) {
            lemma_text_lt_asymmetric(x, y);
        }
        if text_lt(y, x) {
            lemma_text_lt_asymmetric(y, x);
        }
    }
}

/// A session refresh stores the new session token and keeps what the exchange
/// rotated: its auth1 token, account and organisation identifiers where it gave
/// them, the stored ones where it did not. Nothing else of the account changes.
pub proof fn law_refresh_keeps_rotated_credentials(a: AccountView, post: WindsurfPostAuthResult)
    ensures
        ({
            let r = with_refreshed_session(a, post);
            &&& r.token == Some(post.session_token)
            &&& (post.auth1_token matches Some(t) ==> r.devin_auth1_token == Some(t))
            &&& (post.auth1_token is None ==> r.devin_auth1_token == a.devin_auth1_token)
            &&& (post.account_id matches Some(t) ==> r.devin_account_id == Some(t))
            &&& (post.account_id is None ==> r.devin_account_id == a.devin_account_id)
            &&& (post.primary_org_id matches Some(t) ==> r.devin_primary_org_id == Some(t))
            &&& (post.primary_org_id is None ==> r.devin_primary_org_id == a.devin_primary_org_id)
            &&& r.id == a.id && r.email == a.email && r.password == a.password
            &&& r.refresh_token == a.refresh_token && r.token_expires_at == a.token_expires_at
            &&& r.tags == a.tags && r.group == a.group && r.status == a.status
        }),
{
}

/// After a refresh, the next refresh is sent with the auth1 token that the first
/// one stored: the rotated one when the exchange gave one, the old one otherwise,
/// and with the organisation the exchange named, if any.
pub proof fn law_next_refresh_uses_rotated_token(a: AccountView, post: WindsurfPostAuthResult)
    requires
        a.devin_auth1_token is Some,
    ensures
        refresh_inputs(with_refreshed_session(a, post)) matches Some((t, o)) && t == (match post.auth1_token {
            Some(n) => n,
            None => a.devin_auth1_token.unwrap(),
        }) && (post.primary_org_id matches Some(g) ==> o == g@),
{
}

/// The account of a Devin sign-in carries exactly the tags and group chosen at
/// sign-in and the session it obtained: the session token as access token expiring
/// 32 days after the sign-in, the Devin identifiers, active, signed in then. Its
/// identity, address, password and nickname are those of the account it was made
/// from.
pub proof fn law_devin_sign_in_account(
    base: AccountView,
    tags: Seq<String>,
    group: Option<String>,
    creds: DevinCredentials,
    now: UtcTime,
    provider: Option<String>,
)
    requires
        now.secs <= i64::MAX - SESSION_PSEUDO_LIFETIME_SECS,
    ensures
        ({
            let r = with_devin_session(base, tags, group, creds, now, provider);
            &&& r.tags == tags
            &&& r.group == group
            &&& r.token == Some(creds.session_token)
            &&& r.devin_auth1_token == creds.auth1_token
            &&& r.devin_account_id == creds.account_id
            &&& r.devin_primary_org_id == creds.primary_org_id
            &&& r.status == AccountStatus::Active
            &&& r.last_login_at == Some(now)
            &&& r.token_expires_at matches Some(t) && t.secs == now.secs + SESSION_PSEUDO_LIFETIME_SECS
                && t.nanos == now.nanos
            &&& r.id == base.id && r.email == base.email && r.password == base.password
            &&& r.nickname == base.nickname && r.created_at == base.created_at
        }),
{
}

/// Applying user information records each value it reports, the inactive
/// subscription flag and the disabled flag included, keeps each value it does not
/// report, and marks the quota as updated at the time given.
pub proof fn law_user_info_recorded(a: AccountView, u: UserInfo, sub_expiry: Option<UtcTime>, now: UtcTime)
    ensures
        ({
            let r = with_user_info(a, u, sub_expiry, now);
            &&& (u.subscription_active is Some ==> r.subscription_active == u.subscription_active)
            &&& (u.subscription_active is None ==> r.subscription_active == a.subscription_active)
            &&& (u.disable_codeium is Some ==> r.is_disabled == u.disable_codeium)
            &&& (u.disable_codeium is None ==> r.is_disabled == a.is_disabled)
            &&& (u.api_key is Some ==> r.windsurf_api_key == u.api_key)
            &&& (u.api_key is None ==> r.windsurf_api_key == a.windsurf_api_key)
            &&& (u.plan_name is Some ==> r.plan_name == u.plan_name)
            &&& (u.plan_name is None ==> r.plan_name == a.plan_name)
            &&& (u.used_quota matches Some(x) ==> r.used_quota == Some(x as i32))
            &&& (u.used_quota is None ==> r.used_quota == a.used_quota)
            &&& (u.quota matches Some(x) ==> r.total_quota == Some(x as i32))
            &&& (u.quota is None ==> r.total_quota == a.total_quota)
            &&& (u.expires_at is Some ==> r.subscription_expires_at == sub_expiry)
            &&& (u.expires_at is None ==> r.subscription_expires_at == a.subscription_expires_at)
            &&& r.last_quota_update == Some(now)
            &&& r.id == a.id && r.email == a.email && r.token == a.token && r.tags == a.tags
        }),
{
}

/// The order behind a backup list, and what it shows at each place.
proof fn lemma_backup_listing_order(entries: Seq<BackupEntry>, r: Seq<BackupInfo>) -> (p: Seq<usize>)
    requires
        backup_listing(entries, r),
    ensures
        is_permutation(p, listed_entries(entries).len()),
        stably_sorted(
            listed_entries(entries).map_values(|e: BackupEntry| newest_first_key(e.created_at)),
            p,
        ),
        r.len() == p.len(),
        forall|k: int|
            0 <= k < r.len() ==> {
                let e = listed_entries(entries)[p[k] as int];
                &&& (#[trigger] r[k]).name == e.name
                &&& r[k].path == e.path
                &&& r[k].size == e.size
                &&& r[k].created_at == e.created_at
            },
{
    reveal(backup_listing);
    choose|p: Seq<usize>|
        {
            &&& #[trigger] is_permutation(p, listed_entries(entries).len())
            &&& stably_sorted(
                listed_entries(entries).map_values(|e: BackupEntry| newest_first_key(e.created_at)),
                p,
            )
            &&& r == pick(listed_entries(entries), p).map_values(|e: BackupEntry| info_of(e))
            &&& r.len() == p.len()
            &&& forall|k: int|
                0 <= k < r.len() ==> {
                    let e = listed_entries(entries)[p[k] as int];
                    &&& (#[trigger] r[k]).name == e.name
                    &&& r[k].path == e.path
                    &&& r[k].size == e.size
                    &&& r[k].created_at == e.created_at
                }
        }
}

/// Each entry of the listed entries is a backup directory of `entries`.
proof fn lemma_listed_entry_source(entries: Seq<BackupEntry>, i: int) -> (j: int)
    requires
        0 <= i < listed_entries(entries).len(),
    ensures
        0 <= j < entries.len(),
        entries[j] == listed_entries(entries)[i],
        entries[j].is_dir,
        is_backup_name(entries[j].name@),
{
    let pred = |e: BackupEntry| listed(e);
    assert(listed_entries(entries) == entries.filter(pred));
    let e = listed_entries(entries)[i];
    entries.lemma_filter_pred(pred, i);
    assert(entries.filter(pred).contains(e));
    entries.lemma_filter_contains_rev(pred, e);
    choose|j: int| 0 <= j < entries.len() && entries[j] == e
}

/// What a backup list shows at each place comes from a backup directory.
proof fn lemma_backup_sources(entries: Seq<BackupEntry>, r: Seq<BackupInfo>, p: Seq<usize>)
    requires
        is_permutation(p, listed_entries(entries).len()),
        r.len() == p.len(),
        forall|k: int|
            0 <= k < r.len() ==> {
                let e = listed_entries(entries)[p[k] as int];
                &&& (#[trigger] r[k]).name == e.name
                &&& r[k].path == e.path
                &&& r[k].size == e.size
                &&& r[k].created_at == e.created_at
            },
    ensures
        forall|k: int|
            0 <= k < r.len() ==> exists|j: int|
                0 <= j < entries.len() && entries[j].is_dir && is_backup_name(entries[j].name@) && (
                #[trigger] r[k]).name == entries[j].name && r[k].path == entries[j].path && r[k].size
                    == entries[j].size && r[k].created_at == entries[j].created_at,
{
    assert forall|k: int| 0 <= k < r.len() implies exists|j: int|
        0 <= j < entries.len() && entries[j].is_dir && is_backup_name(entries[j].name@) && (
        #[trigger] r[k]).name == entries[j].name && r[k].path == entries[j].path && r[k].size
            == entries[j].size && r[k].created_at == entries[j].created_at by {
        let j = lemma_listed_entry_source(entries, p[k] as int);
        assert(entries[j] == listed_entries(entries)[p[k] as int]);
    }
}

/// A time `x` is no older than `y`: both present and `x` not before `y`, or `y`
/// absent (absent times count as oldest).
pub open spec fn not_older(x: Option<i64>, y: Option<i64>) -> bool {
    match (x, y) {
        (Some(a), Some(b)) => a >= b,
        (None, Some(_)) => false,
        _ => true,
    }
}

/// A backup list comes newest first, backups without a time last: every backup is
/// no older than each one after it.
proof fn lemma_backup_newest_first(entries: Seq<BackupEntry>, r: Seq<BackupInfo>, p: Seq<usize>)
    requires
        is_permutation(p, listed_entries(entries).len()),
        stably_sorted(
            listed_entries(entries).map_values(|e: BackupEntry| newest_first_key(e.created_at)),
            p,
        ),
        r.len() == p.len(),
        forall|k: int|
            0 <= k < r.len() ==> (#[trigger] r[k]).created_at == listed_entries(entries)[p[k] as int].created_at,
    ensures
        forall|i: int, j: int|
            #![trigger r[i], r[j]]
            0 <= i < j < r.len() ==> not_older(r[i].created_at, r[j].created_at),
{
    let keys = listed_entries(entries).map_values(|e: BackupEntry| newest_first_key(e.created_at));
    assert forall|i: int, j: int| #![trigger r[i], r[j]] 0 <= i < j < r.len() implies not_older(
        r[i].created_at,
        r[j].created_at,
    ) by {
        lemma_sorted_all_pairs(keys, p, i, j);
        lemma_plain_key_le(keys[p[i] as int], keys[p[j] as int]);
    }
}

/// The backup list shows one backup for each backup directory (a directory whose
/// name starts with `backup_`), with that directory's name, path, size and time,
/// newest first (backups without a time last).
pub proof fn law_backup_list_reports_entries(entries: Seq<BackupEntry>, r: Seq<BackupInfo>)
    requires
        backup_listing(entries, r),
    ensures
        r.len() == listed_entries(entries).len(),
        forall|k: int|
            0 <= k < r.len() ==> exists|j: int|
                0 <= j < entries.len() && entries[j].is_dir && is_backup_name(entries[j].name@) && (
                #[trigger] r[k]).name == entries[j].name && r[k].path == entries[j].path && r[k].size
                    == entries[j].size && r[k].created_at == entries[j].created_at,
        forall|i: int, j: int|
            #![trigger r[i], r[j]]
            0 <= i < j < r.len() ==> not_older(r[i].created_at, r[j].created_at),
{
    let p = lemma_backup_listing_order(entries, r);
    lemma_backup_sources(entries, r, p);
    lemma_backup_newest_first(entries, r, p);
}

} // verus!
