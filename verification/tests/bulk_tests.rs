use windsurf_account_manager::account_store::AccountStore;
use windsurf_account_manager::bulk_ops::edit_account_tags;
use windsurf_account_manager::data_store::{AppConfig, DataStore};
use windsurf_account_manager::model::{Account, GlobalTag, Settings, TagWithColor};
use windsurf_account_manager::time::UtcTime;

const ID1: &str = "00000000-0000-0000-0000-000000000001";
const ID2: &str = "00000000-0000-0000-0000-000000000002";

fn at(secs: i64) -> UtcTime {
    UtcTime { secs, nanos: 0 }
}

fn store() -> DataStore {
    let config = AppConfig {
        accounts: Vec::new(),
        groups: vec!["g1".into()],
        tags: vec![GlobalTag { name: "vip".into(), color: "gold".into() }],
        settings: Settings { api_enabled: false, api_host: String::new(), api_port: 0, backup_max_count: 3 },
        logs: Vec::new(),
    };
    let mut s = DataStore::assemble(config, Vec::new(), AccountStore::new()).0;
    s.add_account_with(1, at(1), "a@x".into(), "pw".into(), "a".into()).unwrap();
    s.add_account_with(2, at(2), "b@x".into(), "pw".into(), "b".into()).unwrap();
    s
}

#[test]
fn edit_tags_adds_colour_once_and_removes() {
    let mut a = Account::new(1, at(1), "a@x".into(), String::new(), String::new());
    a.tags = vec!["old".into()];
    a.tag_colors = vec![TagWithColor { name: "old".into(), color: "c".into() }];
    let global = vec![GlobalTag { name: "vip".into(), color: "gold".into() }];
    let r = edit_account_tags(a, &vec!["vip".into(), "plain".into(), "vip".into()], &vec!["old".into()], &global);
    assert_eq!(r.tags, vec!["vip".to_string(), "plain".to_string()]);
    assert_eq!(r.tag_colors.len(), 1);
    assert_eq!(r.tag_colors[0].name, "vip");
    assert_eq!(r.tag_colors[0].color, "gold");
}

#[test]
fn batch_tags_counts_and_edits() {
    let mut s = store();
    let (ok, failed) = s.batch_update_account_tags(
        &vec![ID1.to_string(), "not-a-uuid".to_string(), "00000000-0000-0000-0000-000000000009".to_string(), ID2.to_string()],
        &vec!["vip".to_string()],
        &vec![],
    );
    assert_eq!((ok, failed), (2, 2));
    assert_eq!(s.get_account(1).unwrap().tags, vec!["vip".to_string()]);
    assert_eq!(s.get_account(2).unwrap().tag_colors[0].color, "gold");
    let (ok2, failed2) = s.batch_update_account_tags(&vec![ID1.to_string()], &vec![], &vec!["vip".to_string()]);
    assert_eq!((ok2, failed2), (1, 0));
    assert!(s.get_account(1).unwrap().tags.is_empty());
    assert!(s.get_account(1).unwrap().tag_colors.is_empty());
}

#[test]
fn accounts_order_follows_positions() {
    let mut s = store();
    s.update_accounts_order(&vec![ID2.to_string(), "junk".to_string(), ID1.to_string()]);
    assert_eq!(s.get_account(2).unwrap().sort_order, 0);
    assert_eq!(s.get_account(1).unwrap().sort_order, 2);
    s.update_accounts_order(&vec![ID1.to_string(), ID1.to_uppercase()]);
    assert_eq!(s.get_account(1).unwrap().sort_order, 1);
}

#[test]
fn import_merge_skips_taken() {
    let mut s = store();
    let accounts = vec![
        Account::new(3, at(3), "c@x".into(), "pw".into(), "c".into()),
        Account::new(4, at(4), "a@x".into(), "pw".into(), "dup".into()),
        Account::new(1, at(5), "d@x".into(), "pw".into(), "sameid".into()),
        Account::new(6, at(6), "c@x".into(), "pw".into(), "again".into()),
    ];
    let r = s.import_data(Some(accounts), Some(vec!["g1".into(), "g2".into(), "g2".into()]), true);
    assert_eq!((r.accounts_added, r.accounts_skipped, r.groups_added), (1, 3, 1));
    assert_eq!(s.get_all_accounts().len(), 3);
    assert_eq!(s.get_groups(), vec!["g1".to_string(), "g2".to_string()]);
}

#[test]
fn import_replace_swaps_accounts() {
    let mut s = store();
    let accounts = vec![
        Account::new(7, at(7), "z@x".into(), "pw".into(), "z".into()),
        Account::new(7, at(8), "y@x".into(), "pw".into(), "y".into()),
    ];
    let r = s.import_data(Some(accounts), None, false);
    assert_eq!((r.accounts_added, r.accounts_skipped, r.groups_added), (2, 0, 0));
    let all = s.get_all_accounts();
    assert_eq!(all.len(), 1);
    assert_eq!(all[0].email, "z@x");
    let r2 = s.import_data(None, None, true);
    assert_eq!((r2.accounts_added, r2.accounts_skipped, r2.groups_added), (0, 0, 0));
}
