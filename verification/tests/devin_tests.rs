use windsurf_account_manager::account_store::AccountStore;
use windsurf_account_manager::api::{ApiError, LookupError};
use windsurf_account_manager::coalesce::SaveCoalescer;
use windsurf_account_manager::data_store::{AppConfig, DataStore};
use windsurf_account_manager::devin::{
    apply_devin_conversion, apply_devin_login, apply_firebase_conversion, apply_refreshed_session,
    apply_user_info_to_account, build_auth_context_for_account, check_current_user,
    chosen_primary_org, conversion_precheck, devin_nickname, effective_auth1_token,
    imported_nickname, mark_session_refreshed, org_choice_needed, requested_org,
    session_refresh_inputs, validate_auth1_token, validate_session_token, ConversionStart, CurrentUserResponse,
    DevinConversionStep, DevinError, DevinLoginResult, Org, SignInOutcome, UserInfo, WindsurfPostAuthResult,
};
use windsurf_account_manager::model::{Account, AccountStatus, OperationType, Settings};
use windsurf_account_manager::text::{email_local_part, has_prefix, trim_text};
use windsurf_account_manager::time::{session_pseudo_expiry, UtcTime};
use windsurf_account_manager::default_true;

fn at(secs: i64) -> UtcTime {
    UtcTime { secs, nanos: 0 }
}

fn store() -> DataStore {
    let config = AppConfig {
        accounts: Vec::new(),
        groups: Vec::new(),
        tags: Vec::new(),
        settings: Settings { api_enabled: false, api_host: String::new(), api_port: 0, backup_max_count: 3 },
        logs: Vec::new(),
    };
    DataStore::assemble(config, Vec::new(), AccountStore::new()).0
}

fn user(email: Option<&str>) -> UserInfo {
    UserInfo {
        email: email.map(|e| e.to_string()),
        api_key: Some("key-1".into()),
        disable_codeium: Some(false),
        plan_name: Some("Pro".into()),
        used_quota: Some(1500),
        quota: Some(5_000_000_000),
        expires_at: Some(1_800_000_000),
        subscription_active: Some(true),
    }
}

fn orgs(n: usize) -> Vec<Org> {
    (0..n).map(|i| Org { id: format!("org-{}", i), name: format!("O{}", i) }).collect()
}

fn login(requires: bool) -> DevinLoginResult {
    DevinLoginResult {
        auth1_token: "auth1_abcdefghijklmnopqrstuvwxyz".into(),
        session_token: "devin-session-token$abc".into(),
        account_id: Some("account-1".into()),
        primary_org_id: Some("org-0".into()),
        requires_org_selection: requires,
        orgs: orgs(if requires { 2 } else { 1 }),
    }
}

#[test]
fn text_helpers() {
    assert_eq!(trim_text("  a b \t\n"), "a b");
    assert_eq!(trim_text(" \u{3000} "), "");
    assert_eq!(email_local_part("jo@x.com"), "jo");
    assert_eq!(email_local_part("nobody"), "nobody");
    assert_eq!(email_local_part("@x"), "");
    assert!(has_prefix("auth1_x", "auth1_"));
    assert!(!has_prefix("auth", "auth1_"));
    assert!(default_true());
}

#[test]
fn session_token_validation() {
    assert_eq!(validate_session_token("  devin-session-token$abc ").unwrap(), "devin-session-token$abc");
    assert!(matches!(validate_session_token("session$abc"), Err(DevinError::BadSessionTokenPrefix)));
}

#[test]
fn auth1_token_validation() {
    assert_eq!(validate_auth1_token(" auth1_0123456789abcdef ").unwrap(), "auth1_0123456789abcdef");
    assert!(matches!(validate_auth1_token("auth2_0123456789abcdefgh"), Err(DevinError::BadAuth1TokenPrefix)));
    assert!(matches!(validate_auth1_token("auth1_short"), Err(DevinError::Auth1TokenTooShort(11))));
}

#[test]
fn user_lookup_answers() {
    let ok = check_current_user(CurrentUserResponse { success: true, message: None, user_info: Some(user(Some("a@x"))) }).unwrap();
    assert_eq!(ok.1, "a@x");
    assert!(matches!(
        check_current_user(CurrentUserResponse { success: false, message: Some("denied".into()), user_info: None }),
        Err(DevinError::UserLookupFailed(Some(m))) if m == "denied"
    ));
    assert!(matches!(
        check_current_user(CurrentUserResponse { success: true, message: None, user_info: None }),
        Err(DevinError::MissingUserInfo)
    ));
    assert!(matches!(
        check_current_user(CurrentUserResponse { success: true, message: None, user_info: Some(user(Some(""))) }),
        Err(DevinError::MissingEmail)
    ));
}

#[test]
fn nicknames_and_orgs() {
    assert_eq!(devin_nickname(None, "jo@x"), "jo");
    assert_eq!(devin_nickname(Some("  Jo ".into()), "jo@x"), "  Jo ");
    assert_eq!(imported_nickname(Some("  Jo ".into()), "jo@x"), "Jo");
    assert_eq!(imported_nickname(Some("   ".into()), "jo@x"), "jo");
    assert_eq!(requested_org(&Some(" org-7 ".into())), "org-7");
    assert_eq!(requested_org(&None), "");
    assert!(org_choice_needed("", None, 2));
    assert!(!org_choice_needed("", Some(true), 2));
    assert!(!org_choice_needed("org-1", None, 2));
    assert!(!org_choice_needed("", Some(false), 1));
    assert_eq!(chosen_primary_org(Some("p".into()), "r".into(), &orgs(2)).as_deref(), Some("p"));
    assert_eq!(chosen_primary_org(None, "r".into(), &orgs(2)).as_deref(), Some("r"));
    assert_eq!(chosen_primary_org(None, String::new(), &orgs(2)).as_deref(), Some("org-0"));
    assert_eq!(chosen_primary_org(None, String::new(), &orgs(0)), None);
    assert_eq!(effective_auth1_token(Some("new".into()), "old".into()), "new");
    assert_eq!(effective_auth1_token(None, "old".into()), "old");
}

#[test]
fn auth_context_follows_provider() {
    let mut a = Account::new(1, at(1), "a@x".into(), String::new(), String::new());
    let c = build_auth_context_for_account(&a, "tok");
    assert_eq!(c.token, "tok");
    assert!(c.devin.is_none());
    a.auth_provider = Some("devin".into());
    a.devin_account_id = Some("acc".into());
    let d = build_auth_context_for_account(&a, "tok2");
    assert_eq!(d.devin.unwrap().account_id.as_deref(), Some("acc"));
}

#[test]
fn user_info_fills_account() {
    let mut a = Account::new(1, at(1), "a@x".into(), String::new(), String::new());
    a.plan_name = Some("Free".into());
    let mut u = user(Some("a@x"));
    u.plan_name = None;
    apply_user_info_to_account(&mut a, &u);
    assert_eq!(a.windsurf_api_key.as_deref(), Some("key-1"));
    assert_eq!(a.plan_name.as_deref(), Some("Free"));
    assert_eq!(a.used_quota, Some(1500));
    assert_eq!(a.total_quota, Some(5_000_000_000i64 as i32));
    assert_eq!(a.subscription_expires_at, Some(at(1_800_000_000)));
    assert_eq!(a.subscription_active, Some(true));
    assert_eq!(a.is_disabled, Some(false));
    assert!(a.last_quota_update.is_some());
}

#[test]
fn login_account_created_and_org_choice() {
    let mut s = store();
    match s.add_login_account("Jo@x".into(), "pw".into(), None, vec!["t".into()], Some("g".into()), login(true)).unwrap() {
        SignInOutcome::NeedsOrgChoice { orgs, email, .. } => {
            assert_eq!(orgs.len(), 2);
            assert_eq!(email, "Jo@x");
        }
        SignInOutcome::Created(_) => panic!("no account expected"),
    }
    assert!(s.get_all_accounts().is_empty());
    let a = match s.add_login_account("Jo@x".into(), "pw".into(), None, vec!["t".into()], Some("g".into()), login(false)).unwrap() {
        SignInOutcome::Created(a) => a,
        _ => panic!("account expected"),
    };
    assert_eq!(a.nickname, "Jo");
    assert_eq!(a.token.as_deref(), Some("devin-session-token$abc"));
    assert_eq!(a.auth_provider.as_deref(), Some("devin"));
    assert_eq!(a.devin_primary_org_id.as_deref(), Some("org-0"));
    assert!(matches!(a.status, AccountStatus::Active));
    let now = a.last_login_at.unwrap();
    assert_eq!(a.token_expires_at, Some(session_pseudo_expiry(now)));
    assert_eq!(a.token_expires_at.unwrap().secs - now.secs, 32 * 86_400);
    let id = a.id;
    s.record_account(a, OperationType::AddAccount, "added".into());
    assert_eq!(s.get_account(id).unwrap().group.as_deref(), Some("g"));
    assert_eq!(s.get_logs(None)[0].account_id, Some(id));
    assert!(matches!(
        s.add_login_account("jo@X".into(), "pw".into(), None, vec![], None, login(false)),
        Err(DevinError::AccountExists(e)) if e == "jo@X"
    ));
}

#[test]
fn org_account_uses_fallbacks() {
    let mut s = store();
    let post = WindsurfPostAuthResult {
        session_token: "devin-session-token$s".into(),
        auth1_token: None,
        account_id: None,
        primary_org_id: None,
        orgs: orgs(2),
    };
    let a = s.add_org_account("b@x".into(), "auth1_in".into(), "org-9".into(), Some("B".into()), vec![], None, None, post).unwrap();
    assert_eq!(a.devin_auth1_token.as_deref(), Some("auth1_in"));
    assert_eq!(a.devin_primary_org_id.as_deref(), Some("org-9"));
    assert_eq!(a.password, "");
    assert_eq!(a.nickname, "B");
}

#[test]
fn session_and_auth1_imports() {
    let mut s = store();
    let a = s
        .import_session_token_account("devin-session-token$x".into(), Some(" ".into()), vec![], None,
            CurrentUserResponse { success: true, message: None, user_info: Some(user(Some("c@x"))) })
        .unwrap();
    assert_eq!(a.nickname, "c");
    assert_eq!(a.devin_auth1_token, None);
    assert_eq!(a.plan_name.as_deref(), Some("Pro"));

    let post = WindsurfPostAuthResult {
        session_token: "devin-session-token$y".into(),
        auth1_token: Some("auth1_rotated".into()),
        account_id: Some("acc".into()),
        primary_org_id: None,
        orgs: orgs(3),
    };
    let r = s.import_auth1_account("auth1_orig".into(), String::new(), None, None, vec![], None, post,
        CurrentUserResponse { success: true, message: None, user_info: Some(user(Some("d@x"))) }).unwrap();
    match r {
        SignInOutcome::NeedsOrgChoice { auth1_token, orgs, email } => {
            assert_eq!(auth1_token, "auth1_rotated");
            assert_eq!(orgs.len(), 3);
            assert_eq!(email, "d@x");
        }
        _ => panic!("org choice expected"),
    }
    let post2 = WindsurfPostAuthResult {
        session_token: "devin-session-token$y".into(),
        auth1_token: None,
        account_id: Some("acc".into()),
        primary_org_id: None,
        orgs: orgs(3),
    };
    let r2 = s.import_auth1_account("auth1_orig".into(), String::new(), Some(true), None, vec![], None, post2,
        CurrentUserResponse { success: true, message: None, user_info: Some(user(Some("d@x"))) }).unwrap();
    match r2 {
        SignInOutcome::Created(a) => {
            assert_eq!(a.devin_auth1_token.as_deref(), Some("auth1_orig"));
            assert_eq!(a.devin_primary_org_id.as_deref(), Some("org-0"));
            assert_eq!(a.devin_account_id.as_deref(), Some("acc"));
        }
        _ => panic!("account expected"),
    }
}

#[test]
fn refresh_and_conversions() {
    let mut a = Account::new(1, at(1), "a@x".into(), "pw".into(), String::new());
    assert!(matches!(session_refresh_inputs(&a), Err(DevinError::MissingAuth1Token)));
    a.devin_auth1_token = Some("auth1_a".into());
    let (t, o) = session_refresh_inputs(&a).unwrap();
    assert_eq!((t.as_str(), o.as_str()), ("auth1_a", ""));
    let post = WindsurfPostAuthResult {
        session_token: "s2".into(),
        auth1_token: None,
        account_id: Some("acc".into()),
        primary_org_id: None,
        orgs: vec![],
    };
    apply_refreshed_session(&mut a, &post);
    assert_eq!(a.token.as_deref(), Some("s2"));
    assert_eq!(a.devin_auth1_token.as_deref(), Some("auth1_a"));
    assert_eq!(a.devin_account_id.as_deref(), Some("acc"));
    mark_session_refreshed(&mut a);
    assert!(matches!(a.status, AccountStatus::Active));

    assert_eq!(conversion_precheck(&a, false, "pw").unwrap(), false);
    assert!(matches!(conversion_precheck(&a, true, "  "), Err(DevinError::EmptyPassword)));
    assert_eq!(conversion_precheck(&a, true, "pw").unwrap(), true);
    a.refresh_token = Some("r".into());
    apply_devin_conversion(&mut a, &login(false));
    assert!(a.is_devin_account());
    assert_eq!(a.refresh_token, None);
    assert_eq!(conversion_precheck(&a, true, "pw").unwrap(), false);
    apply_firebase_conversion(&mut a, "id".into(), "rt".into(), at(99));
    assert!(!a.is_devin_account());
    assert_eq!(a.devin_auth1_token, None);
    assert_eq!(a.refresh_token.as_deref(), Some("rt"));
    assert_eq!(a.token_expires_at, Some(at(99)));
}

#[test]
fn api_lookup_and_statuses() {
    let mut s = store();
    s.add_account_with(0xab, at(1), "a@x".into(), "pw".into(), "a".into()).unwrap();
    assert_eq!(s.account_by_text_id("00000000-0000-0000-0000-0000000000ab").unwrap().id, 0xab);
    assert_eq!(s.account_by_text_id("000000000000000000000000000000ab").unwrap().id, 0xab);
    let bad = s.account_by_text_id("xyz").unwrap_err();
    assert!(matches!(bad, LookupError::InvalidUuid));
    assert_eq!(bad.into_api_error("m".into()).status_code(), 400);
    let missing = s.account_by_text_id("00000000-0000-0000-0000-0000000000ac").unwrap_err();
    let e = missing.into_api_error("gone".into());
    assert_eq!(e.status_code(), 404);
    assert_eq!(e.message(), "gone");
    assert_eq!(ApiError::Internal("x".into()).status_code(), 500);
}

#[test]
fn coalescer_starts_one_saver() {
    let mut c = SaveCoalescer::new();
    assert!(c.request());
    assert!(!c.request());
    assert!(c.is_pending());
    assert!(c.take());
    assert!(!c.take());
    assert!(c.request());
}

#[test]
fn imports_refused_for_lookup_failures_and_taken_email() {
    let mut s = store();
    let r = s.import_session_token_account("devin-session-token$x".into(), None, vec![], None,
        CurrentUserResponse { success: false, message: Some("denied".into()), user_info: None });
    assert!(matches!(r, Err(DevinError::UserLookupFailed(Some(ref m))) if m == "denied"));
    let r = s.import_session_token_account("devin-session-token$x".into(), None, vec![], None,
        CurrentUserResponse { success: true, message: None, user_info: None });
    assert!(matches!(r, Err(DevinError::MissingUserInfo)));
    let r = s.import_session_token_account("devin-session-token$x".into(), None, vec![], None,
        CurrentUserResponse { success: true, message: None, user_info: Some(user(Some(""))) });
    assert!(matches!(r, Err(DevinError::MissingEmail)));
    s.import_session_token_account("devin-session-token$x".into(), None, vec![], None,
        CurrentUserResponse { success: true, message: None, user_info: Some(user(Some("Taken@X"))) })
        .unwrap();
    let post = WindsurfPostAuthResult {
        session_token: "devin-session-token$y".into(),
        auth1_token: None,
        account_id: None,
        primary_org_id: None,
        orgs: orgs(1),
    };
    let r = s.import_auth1_account("auth1_orig".into(), String::new(), None, None, vec![], None, post,
        CurrentUserResponse { success: true, message: None, user_info: Some(user(Some("taken@x"))) });
    assert!(matches!(r, Err(DevinError::AccountExists(ref e)) if e == "taken@x"));
    assert_eq!(s.get_all_accounts().len(), 1);
}

#[test]
fn conversion_start_reads_stored_account() {
    let mut s = store();
    assert!(matches!(s.begin_conversion(9, true), Err(DevinError::Store(_))));
    s.add_account_with(1, at(1), "a@x".into(), "  ".into(), "a".into()).unwrap();
    s.add_account_with(2, at(1), "b@x".into(), "pw".into(), "b".into()).unwrap();
    assert!(matches!(s.begin_conversion(1, true), Err(DevinError::EmptyPassword)));
    assert!(matches!(s.begin_conversion(2, false), Ok(ConversionStart::AlreadyConverted)));
    match s.begin_conversion(2, true).unwrap() {
        ConversionStart::Proceed { account, password } => {
            assert_eq!(account.id, 2);
            assert_eq!(password, "pw");
        }
        _ => panic!("conversion expected"),
    }
}

#[test]
fn devin_login_of_conversion_asks_or_applies() {
    let mut a = Account::new(1, at(1), "a@x".into(), "pw".into(), String::new());
    a.refresh_token = Some("r".into());
    match apply_devin_login(&mut a, login(true)) {
        DevinConversionStep::ChooseOrg(o) => assert_eq!(o.len(), 2),
        _ => panic!("org choice expected"),
    }
    assert_eq!(a.refresh_token.as_deref(), Some("r"));
    assert!(!a.is_devin_account());
    assert!(matches!(apply_devin_login(&mut a, login(false)), DevinConversionStep::Applied));
    assert!(a.is_devin_account());
    assert_eq!(a.refresh_token, None);
    assert_eq!(a.token.as_deref(), Some("devin-session-token$abc"));
}

#[test]
fn user_info_sets_subscription_expiry() {
    let mut a = Account::new(1, at(1), "a@x".into(), "pw".into(), String::new());
    apply_user_info_to_account(&mut a, &user(Some("a@x")));
    assert_eq!(a.subscription_expires_at, Some(at(1_800_000_000)));
}

#[test]
fn conversion_and_refresh_by_text_id() {
    let mut s = store();
    s.add_account_with(0xab, at(1), "a@x".into(), "pw".into(), "a".into()).unwrap();
    assert!(matches!(s.begin_conversion_by_text("nope", true), Err(DevinError::InvalidId(ref t)) if t == "nope"));
    assert!(matches!(
        s.begin_conversion_by_text("00000000-0000-0000-0000-0000000000ac", true),
        Err(DevinError::Store(_))
    ));
    match s.begin_conversion_by_text("00000000-0000-0000-0000-0000000000ab", true).unwrap() {
        ConversionStart::Proceed { account, password } => {
            assert_eq!(account.id, 0xab);
            assert_eq!(password, "pw");
        }
        _ => panic!("conversion expected"),
    }
    assert!(matches!(s.session_refresh_inputs_by_text("x"), Err(DevinError::InvalidId(_))));
    assert!(matches!(
        s.session_refresh_inputs_by_text("00000000-0000-0000-0000-0000000000ab"),
        Err(DevinError::MissingAuth1Token)
    ));
    let mut a = s.get_account(0xab).unwrap();
    a.devin_auth1_token = Some("auth1_t".into());
    a.devin_primary_org_id = Some("org".into());
    s.update_account(a);
    let (acc, t, o) = s.session_refresh_inputs_by_text("00000000-0000-0000-0000-0000000000ab").unwrap();
    assert_eq!((acc.id, t.as_str(), o.as_str()), (0xab, "auth1_t", "org"));
}

#[test]
fn recorded_account_keeps_earlier_log() {
    let mut s = store();
    let a = Account::new(5, at(1), "e@x".into(), "pw".into(), String::new());
    s.record_account(a, OperationType::AddAccount, "first".into());
    let b = Account::new(6, at(1), "f@x".into(), "pw".into(), String::new());
    s.record_account(b, OperationType::AddAccount, "second".into());
    let logs = s.get_logs(None);
    assert_eq!(logs.len(), 2);
    assert_eq!(logs[0].message, "first");
    assert_eq!(logs[1].message, "second");
}
