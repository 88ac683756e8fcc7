use windsurf_account_manager::account_store::{AccountStore, StoreError};
use windsurf_account_manager::data_store::{AppConfig, DataStore, MAX_LOGS};
use windsurf_account_manager::model::{
    Account, AccountStatus, GlobalTag, OperationLog, OperationStatus, OperationType, Settings,
    TagWithColor,
};
use windsurf_account_manager::time::UtcTime;

fn settings() -> Settings {
    Settings { api_enabled: false, api_host: "127.0.0.1".to_string(), api_port: 46953, backup_max_count: 10 }
}

fn empty_store() -> DataStore {
    let config = AppConfig {
        accounts: Vec::new(),
        groups: Vec::new(),
        tags: Vec::new(),
        settings: settings(),
        logs: Vec::new(),
    };
    DataStore::assemble(config, Vec::new(), AccountStore::new()).0
}

fn at(secs: i64) -> UtcTime {
    UtcTime { secs, nanos: 0 }
}

fn log_for(id: Option<u128>, message: &str) -> OperationLog {
    OperationLog {
        id: 7,
        timestamp: at(1),
        operation_type: OperationType::EditAccount,
        status: OperationStatus::Success,
        message: message.to_string(),
        account_id: id,
        account_email: None,
    }
}

#[test]
fn add_account_then_read_back() {
    let mut s = empty_store();
    let a = s.add_account_with(1, at(100), "a@x.com".into(), "pw".into(), "a".into()).unwrap();
    assert_eq!(a.id, 1);
    let b = s.get_account(1).unwrap();
    assert_eq!(b.email, "a@x.com");
    assert_eq!(b.password, "pw");
    assert_eq!(b.created_at, at(100));
    assert!(matches!(b.status, AccountStatus::Inactive));
    assert_eq!(b.sort_order, 0);
}

#[test]
fn add_account_refuses_same_email_and_same_id() {
    let mut s = empty_store();
    s.add_account_with(1, at(100), "a@x.com".into(), "pw".into(), "a".into()).unwrap();
    match s.add_account_with(2, at(100), "a@x.com".into(), "pw".into(), "a".into()) {
        Err(StoreError::EmailExists(e)) => assert_eq!(e, "a@x.com"),
        other => panic!("unexpected {:?}", other.map(|a| a.id)),
    }
    match s.add_account_with(1, at(100), "b@x.com".into(), "pw".into(), "b".into()) {
        Err(StoreError::DuplicateId(k)) => assert_eq!(k, 1),
        other => panic!("unexpected {:?}", other.map(|a| a.id)),
    }
    assert_eq!(s.get_all_accounts().len(), 1);
}

#[test]
fn add_account_with_fresh_id() {
    let mut s = empty_store();
    let a = s.add_account("c@x.com".into(), "pw".into(), "c".into()).unwrap();
    assert_eq!(s.get_account(a.id).unwrap().email, "c@x.com");
}

#[test]
fn update_account_keeps_stored_password() {
    let mut s = empty_store();
    let mut a = s.add_account_with(1, at(100), "a@x.com".into(), "secret".into(), "a".into()).unwrap();
    a.password = "changed".into();
    a.nickname = "renamed".into();
    s.update_account(a);
    let b = s.get_account(1).unwrap();
    assert_eq!(b.password, "secret");
    assert_eq!(b.nickname, "renamed");
}

#[test]
fn update_password_and_missing_account() {
    let mut s = empty_store();
    s.add_account_with(1, at(100), "a@x.com".into(), "old".into(), "a".into()).unwrap();
    s.update_account_password(1, "new".into()).unwrap();
    assert_eq!(s.get_decrypted_password(1).unwrap(), "new");
    assert!(matches!(s.update_account_password(9, "x".into()), Err(StoreError::AccountNotFound(9))));
    assert!(matches!(s.get_decrypted_token(9), Err(StoreError::AccountNotFound(9))));
}

#[test]
fn update_tokens_marks_active_and_builds_event() {
    let mut s = empty_store();
    s.add_account_with(0x1234, at(100), "a@x.com".into(), "pw".into(), "a".into()).unwrap();
    let p = s.update_account_tokens(0x1234, "tok".into(), "ref".into(), at(1_700_000_000)).unwrap().unwrap();
    assert_eq!(p.token, "tok");
    assert_eq!(p.account_id, "00000000-0000-0000-0000-000000001234");
    assert_eq!(p.token_expires_at, "2023-11-14T22:13:20+00:00");
    let a = s.get_account(0x1234).unwrap();
    assert_eq!(a.token.as_deref(), Some("tok"));
    assert_eq!(a.refresh_token.as_deref(), Some("ref"));
    assert_eq!(a.token_expires_at, Some(at(1_700_000_000)));
    assert!(a.last_login_at.is_some());
    assert!(matches!(a.status, AccountStatus::Active));
    s.update_account_token(0x1234, "t2".into(), at(5)).unwrap();
    assert_eq!(s.get_decrypted_token(0x1234).unwrap().as_deref(), Some("t2"));
}

#[test]
fn delete_account_drops_its_logs() {
    let mut s = empty_store();
    s.add_account_with(1, at(100), "a@x.com".into(), "pw".into(), "a".into()).unwrap();
    s.add_account_with(2, at(100), "b@x.com".into(), "pw".into(), "b".into()).unwrap();
    s.add_log(log_for(Some(1), "one"));
    s.add_log(log_for(Some(2), "two"));
    s.add_log(log_for(None, "none"));
    s.delete_account(1).unwrap();
    assert!(s.get_account(1).is_err());
    let logs = s.get_logs(None);
    assert_eq!(logs.iter().map(|l| l.message.as_str()).collect::<Vec<_>>(), vec!["two", "none"]);
    assert!(matches!(s.delete_account(1), Err(StoreError::AccountNotFound(1))));
}

#[test]
fn delete_batch_reports_deleted_and_missing() {
    let mut s = empty_store();
    for (id, e) in [(1u128, "a@x"), (2, "b@x"), (3, "c@x")] {
        s.add_account_with(id, at(1), e.into(), "pw".into(), "n".into()).unwrap();
    }
    s.add_log(log_for(Some(1), "one"));
    s.add_log(log_for(Some(3), "three"));
    let (deleted, missing) = s.delete_accounts_batch(&vec![3, 9, 1, 3]);
    assert_eq!(deleted, vec![3, 1]);
    assert_eq!(missing, vec![9]);
    let left: Vec<u128> = s.get_all_accounts().iter().map(|a| a.id).collect();
    assert_eq!(left, vec![2]);
    assert!(s.get_logs(None).is_empty());
    let (d, m) = s.delete_accounts_batch(&vec![]);
    assert!(d.is_empty() && m.is_empty());
}

#[test]
fn groups_add_rename_delete() {
    let mut s = empty_store();
    s.add_group("vip".into());
    s.add_group("vip".into());
    s.add_group("test".into());
    assert_eq!(s.get_groups(), vec!["vip".to_string(), "test".to_string()]);
    let mut a = s.add_account_with(1, at(1), "a@x".into(), "pw".into(), "a".into()).unwrap();
    a.group = Some("vip".into());
    s.update_account(a);
    assert!(matches!(s.rename_group("vip".into(), "test".into()), Err(StoreError::GroupExists(n)) if n == "test"));
    assert!(matches!(s.rename_group("nope".into(), "x".into()), Err(StoreError::GroupNotFound(n)) if n == "nope"));
    s.rename_group("vip".into(), "gold".into()).unwrap();
    assert_eq!(s.get_groups(), vec!["gold".to_string(), "test".to_string()]);
    assert_eq!(s.get_account(1).unwrap().group.as_deref(), Some("gold"));
    s.delete_group("gold".into());
    assert_eq!(s.get_groups(), vec!["test".to_string()]);
    assert_eq!(s.get_account(1).unwrap().group, None);
}

#[test]
fn tags_add_update_delete() {
    let mut s = empty_store();
    s.add_tag(GlobalTag { name: "new".into(), color: "red".into() }).unwrap();
    assert!(matches!(s.add_tag(GlobalTag { name: "new".into(), color: "blue".into() }), Err(StoreError::TagExists(n)) if n == "new"));
    s.add_tag(GlobalTag { name: "old".into(), color: "gray".into() }).unwrap();
    let mut a = s.add_account_with(1, at(1), "a@x".into(), "pw".into(), "a".into()).unwrap();
    a.tags = vec!["new".into(), "keep".into()];
    a.tag_colors = vec![TagWithColor { name: "new".into(), color: "red".into() }];
    s.update_account(a);
    assert!(matches!(s.update_tag("new".into(), GlobalTag { name: "old".into(), color: "x".into() }), Err(StoreError::TagExists(n)) if n == "old"));
    assert!(matches!(s.update_tag("zzz".into(), GlobalTag { name: "q".into(), color: "x".into() }), Err(StoreError::TagNotFound(n)) if n == "zzz"));
    s.update_tag("new".into(), GlobalTag { name: "fresh".into(), color: "green".into() }).unwrap();
    let names: Vec<String> = s.get_tags().into_iter().map(|t| t.name).collect();
    assert_eq!(names, vec!["fresh".to_string(), "old".to_string()]);
    let b = s.get_account(1).unwrap();
    assert_eq!(b.tags, vec!["fresh".to_string(), "keep".to_string()]);
    assert_eq!(b.tag_colors[0].name, "fresh");
    assert_eq!(b.tag_colors[0].color, "red");
    s.delete_tag("fresh".into());
    assert_eq!(s.get_tags().len(), 1);
    let c = s.get_account(1).unwrap();
    assert_eq!(c.tags, vec!["keep".to_string()]);
    assert!(c.tag_colors.is_empty());
}

#[test]
fn log_keeps_newest_thousand() {
    let mut s = empty_store();
    for i in 0..(MAX_LOGS + 5) {
        s.add_log(log_for(None, &format!("m{}", i)));
    }
    let logs = s.get_logs(None);
    assert_eq!(logs.len(), MAX_LOGS);
    assert_eq!(logs[0].message, "m5");
    assert_eq!(logs[MAX_LOGS - 1].message, format!("m{}", MAX_LOGS + 4));
    let last3 = s.get_logs(Some(3));
    assert_eq!(last3.iter().map(|l| l.message.clone()).collect::<Vec<_>>(), vec![
        format!("m{}", MAX_LOGS + 2),
        format!("m{}", MAX_LOGS + 3),
        format!("m{}", MAX_LOGS + 4),
    ]);
    assert_eq!(s.get_logs(Some(5000)).len(), MAX_LOGS);
    s.clear_logs();
    assert!(s.get_logs(None).is_empty());
}

#[test]
fn settings_round_trip() {
    let mut s = empty_store();
    let mut t = s.get_settings();
    t.api_port = 5000;
    t.api_enabled = true;
    s.update_settings(t);
    assert_eq!(s.get_settings().api_port, 5000);
    assert!(s.get_settings().api_enabled);
}

#[test]
fn startup_moves_legacy_logs_and_accounts() {
    let legacy = Account::new(5, at(1), "old@x".into(), "pw".into(), "old".into());
    let config = AppConfig {
        accounts: vec![legacy],
        groups: vec!["g".into()],
        tags: Vec::new(),
        settings: settings(),
        logs: vec![log_for(None, "legacy")],
    };
    let (s, m) = DataStore::assemble(config, Vec::new(), AccountStore::new());
    assert!(m.logs_moved && m.accounts_moved);
    assert_eq!(s.get_logs(None)[0].message, "legacy");
    assert!(s.config.logs.is_empty());
    assert!(s.config.accounts.is_empty());
    assert_eq!(s.get_account(5).unwrap().email, "old@x");

    let config2 = AppConfig {
        accounts: Vec::new(),
        groups: Vec::new(),
        tags: Vec::new(),
        settings: settings(),
        logs: vec![log_for(None, "legacy")],
    };
    let (s2, m2) = DataStore::assemble(config2, vec![log_for(None, "current")], AccountStore::new());
    assert!(!m2.logs_moved && !m2.accounts_moved);
    assert_eq!(s2.get_logs(None)[0].message, "current");
    assert_eq!(s2.config.logs.len(), 1);
}
