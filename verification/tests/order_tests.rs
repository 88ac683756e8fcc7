use windsurf_account_manager::account_order::{plan_rank, sort_accounts, SortDirection, SortField};
use windsurf_account_manager::account_store::AccountStore;
use windsurf_account_manager::backups::{backup_name, list_backups, stale_backups, BackupDir, BackupEntry};
use windsurf_account_manager::data_store::{AppConfig, DataStore};
use windsurf_account_manager::model::{Account, Settings};
use windsurf_account_manager::sorting::{stable_order, text_less, SortKey};
use windsurf_account_manager::time::UtcTime;

fn at(secs: i64) -> UtcTime {
    UtcTime { secs, nanos: 0 }
}

fn acct(id: u128, email: &str) -> Account {
    Account::new(id, at(id as i64), email.to_string(), String::new(), String::new())
}

fn ids(v: &[Account]) -> Vec<u128> {
    v.iter().map(|a| a.id).collect()
}

#[test]
fn text_order_by_code_points() {
    assert!(text_less("abc", "abd"));
    assert!(text_less("ab", "abc"));
    assert!(!text_less("abc", "abc"));
    assert!(!text_less("b", "abc"));
    assert!(text_less("Z", "a"));
}

#[test]
fn stable_order_keeps_ties_in_place() {
    let k = |a: i128| SortKey { text: String::new(), a, b: 0, c: 0 };
    let keys = vec![k(3), k(1), k(3), k(0), k(1)];
    assert_eq!(stable_order(&keys), vec![3, 1, 4, 0, 2]);
}

#[test]
fn sort_by_email_ignores_case() {
    let v = vec![acct(1, "b@x"), acct(2, "A@x"), acct(3, "c@x"), acct(4, "a@x")];
    let asc = sort_accounts(&v, SortField::Email, SortDirection::Asc);
    assert_eq!(ids(&asc), vec![2, 4, 1, 3]);
    let desc = sort_accounts(&v, SortField::Email, SortDirection::Desc);
    assert_eq!(ids(&desc), vec![3, 1, 4, 2]);
}

#[test]
fn sort_by_quota_fields() {
    let mut v = vec![acct(1, "a"), acct(2, "b"), acct(3, "c")];
    v[0].used_quota = Some(50);
    v[0].total_quota = Some(100);
    v[1].used_quota = None;
    v[1].total_quota = Some(10);
    v[2].used_quota = Some(5);
    v[2].total_quota = Some(500);
    assert_eq!(ids(&sort_accounts(&v, SortField::UsedQuota, SortDirection::Asc)), vec![2, 3, 1]);
    assert_eq!(ids(&sort_accounts(&v, SortField::RemainingQuota, SortDirection::Asc)), vec![2, 1, 3]);
    assert_eq!(ids(&sort_accounts(&v, SortField::RemainingQuota, SortDirection::Desc)), vec![3, 1, 2]);
}

#[test]
fn sort_by_optional_fields_puts_missing_last() {
    let mut v = vec![acct(1, "a"), acct(2, "b"), acct(3, "c"), acct(4, "d")];
    v[0].token_expires_at = None;
    v[1].token_expires_at = Some(at(50));
    v[2].token_expires_at = Some(at(10));
    v[3].token_expires_at = None;
    assert_eq!(ids(&sort_accounts(&v, SortField::TokenExpiresAt, SortDirection::Asc)), vec![3, 2, 1, 4]);
    assert_eq!(ids(&sort_accounts(&v, SortField::TokenExpiresAt, SortDirection::Desc)), vec![4, 1, 2, 3]);
    v[0].daily_quota_remaining_percent = Some(80);
    v[2].daily_quota_remaining_percent = Some(20);
    assert_eq!(ids(&sort_accounts(&v, SortField::DailyQuotaRemaining, SortDirection::Asc)), vec![3, 1, 2, 4]);
    v[1].weekly_quota_remaining_percent = Some(1);
    assert_eq!(ids(&sort_accounts(&v, SortField::WeeklyQuotaRemaining, SortDirection::Asc)), vec![2, 1, 3, 4]);
    v[3].subscription_expires_at = Some(at(1));
    assert_eq!(ids(&sort_accounts(&v, SortField::SubscriptionExpiresAt, SortDirection::Asc)), vec![4, 1, 2, 3]);
    assert_eq!(ids(&sort_accounts(&v, SortField::CreatedAt, SortDirection::Desc)), vec![4, 3, 2, 1]);
}

#[test]
fn sort_by_plan_rank() {
    assert_eq!(plan_rank(&Some("Enterprise".to_string())), 5);
    assert_eq!(plan_rank(&Some("TEAMS".to_string())), 4);
    assert_eq!(plan_rank(&Some("pro".to_string())), 3);
    assert_eq!(plan_rank(&Some("Trial".to_string())), 2);
    assert_eq!(plan_rank(&Some("free".to_string())), 1);
    assert_eq!(plan_rank(&Some("Pro Ultimate".to_string())), 0);
    assert_eq!(plan_rank(&None), 0);
    let mut v = vec![acct(1, "a"), acct(2, "b"), acct(3, "c"), acct(4, "d")];
    v[0].plan_name = Some("Free".into());
    v[1].plan_name = Some("Pro".into());
    v[2].plan_name = None;
    v[3].plan_name = Some("pro".into());
    assert_eq!(ids(&sort_accounts(&v, SortField::PlanName, SortDirection::Desc)), vec![2, 4, 1, 3]);
    assert_eq!(ids(&sort_accounts(&v, SortField::PlanName, SortDirection::Asc)), vec![3, 1, 4, 2]);
}

#[test]
fn store_sorted_accounts() {
    let config = AppConfig {
        accounts: Vec::new(),
        groups: Vec::new(),
        tags: Vec::new(),
        settings: Settings { api_enabled: false, api_host: String::new(), api_port: 0, backup_max_count: 3 },
        logs: Vec::new(),
    };
    let mut s = DataStore::assemble(config, Vec::new(), AccountStore::new()).0;
    s.add_account_with(1, at(30), "c@x".into(), "pw".into(), "c".into()).unwrap();
    s.add_account_with(2, at(10), "b@x".into(), "pw".into(), "b".into()).unwrap();
    s.add_account_with(3, at(20), "a@x".into(), "pw".into(), "a".into()).unwrap();
    assert_eq!(ids(&s.get_sorted_accounts(SortField::CreatedAt, SortDirection::Asc)), vec![2, 3, 1]);
    assert_eq!(ids(&s.get_sorted_accounts(SortField::Email, SortDirection::Asc)), vec![3, 2, 1]);
}

#[test]
fn backup_names() {
    assert!(backup_name("backup_20240101_120000"));
    assert!(!backup_name("Backup_x"));
    assert!(!backup_name("backup"));
}

#[test]
fn backups_listed_newest_first() {
    let e = |name: &str, is_dir: bool, t: Option<i64>| BackupEntry {
        name: name.to_string(),
        path: format!("/b/{}", name),
        is_dir,
        size: 10,
        created_at: t,
    };
    let entries = vec![
        e("backup_1", true, Some(100)),
        e("notes.txt", false, Some(999)),
        e("backup_2", true, None),
        e("backup_3", true, Some(300)),
        e("other", true, Some(500)),
        e("backup_4", false, Some(400)),
    ];
    let listed = list_backups(entries);
    let names: Vec<&str> = listed.iter().map(|b| b.name.as_str()).collect();
    assert_eq!(names, vec!["backup_3", "backup_1", "backup_2"]);
    assert_eq!(listed[0].path, "/b/backup_3");
    assert_eq!(listed[0].created_at, Some(300));
}

#[test]
fn stale_backups_beyond_keep_count() {
    let d = |name: &str, is_dir: bool, t: Option<i64>| BackupDir {
        name: name.to_string(),
        is_dir,
        modified: t.map(at),
    };
    let dirs = vec![
        d("backup_a", true, Some(10)),
        d("backup_b", true, Some(30)),
        d("x", true, Some(40)),
        d("backup_c", true, None),
        d("backup_d", true, Some(20)),
    ];
    assert_eq!(stale_backups(&dirs, 2), vec![0, 3]);
    assert_eq!(stale_backups(&dirs, 0), vec![1, 4, 0, 3]);
    assert!(stale_backups(&dirs, 10).is_empty());
}

#[test]
fn descending_is_ascending_reversed_for_every_field() {
    let mut v = vec![acct(1, "b@x"), acct(2, "a@x"), acct(3, "b@x"), acct(4, "c@x")];
    v[0].plan_name = Some("Pro".into());
    v[1].plan_name = Some("free".into());
    v[2].plan_name = Some("PRO".into());
    v[3].plan_name = None;
    v[0].used_quota = Some(5);
    v[2].used_quota = Some(5);
    v[1].token_expires_at = Some(at(7));
    let fields = [
        SortField::Email,
        SortField::CreatedAt,
        SortField::UsedQuota,
        SortField::RemainingQuota,
        SortField::TokenExpiresAt,
        SortField::SubscriptionExpiresAt,
        SortField::PlanName,
        SortField::DailyQuotaRemaining,
        SortField::WeeklyQuotaRemaining,
    ];
    for f in fields {
        let mut asc = ids(&sort_accounts(&v, f, SortDirection::Asc));
        let desc = ids(&sort_accounts(&v, f, SortDirection::Desc));
        asc.reverse();
        assert_eq!(asc, desc);
    }
    assert_eq!(ids(&sort_accounts(&v, SortField::PlanName, SortDirection::Desc)), vec![1, 3, 2, 4]);
}
