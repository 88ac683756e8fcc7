//! The data store: application configuration (groups, tags, settings), the
//! operation log and the account store, with the operations the application
//! performs on them. Persisting them is left to the caller.
use vstd::prelude::*;
use crate::account_store::{
    first_present, has_email, has_id, index_of, insert_all, regroup, retag, untag, AccountStore,
    StoreError,
};
use crate::ids::{format_uuid, new_uuid, uuid_text};
use crate::model::{
    account_views, new_account_view, Account, AccountStatus, AccountView, GlobalTag, OperationLog, Settings,
};
use crate::text::{contains_text, copy_texts, has_text, text_eq, texts_without};
use crate::time::{rfc3339, rfc3339_text, utc_now, within_chrono_range, UtcTime};

verus! {

/// Most operation-log entries kept; older ones are dropped first.
pub const MAX_LOGS: usize = 1000;

/// The configuration file's contents. `accounts` and `logs` are legacy fields
/// that older versions stored here; they are moved out on start-up.
pub struct AppConfig {
    pub accounts: Vec<Account>,
    pub groups: Vec<String>,
    pub tags: Vec<GlobalTag>,
    pub settings: Settings,
    pub logs: Vec<OperationLog>,
}

/// Payload of the event sent when an account's tokens are refreshed.
#[derive(Debug)]
pub struct TokenRefreshedPayload {
    pub account_id: String,
    pub token: String,
    pub token_expires_at: String,
}

impl TokenRefreshedPayload {
    /// The payload for account `id`: its UUID text, the token, and the RFC 3339
    /// text of the expiry; none when chrono cannot hold the expiry, which never
    /// happens within [`within_chrono_range`].
    pub fn new(id: u128, token: String, expires_at: UtcTime) -> (r: Option<TokenRefreshedPayload>)
        ensures
            r matches Some(p) ==> p.account_id@ == uuid_text(id) && p.token == token
                && p.token_expires_at@ == rfc3339(expires_at),
            within_chrono_range(expires_at) ==> r is Some,
    {
        match rfc3339_text(expires_at) {
            Some(t) => Some(
                TokenRefreshedPayload { account_id: format_uuid(id), token, token_expires_at: t },
            ),
            None => None,
        }
    }
}

/// What start-up moved out of the legacy fields of the configuration.
#[derive(Debug)]
pub struct StartupMigration {
    /// The legacy log entries became the operation log.
    pub logs_moved: bool,
    /// The legacy accounts were inserted into the empty account store.
    pub accounts_moved: bool,
}

/// The last `MAX_LOGS` entries of `s` (all of them when there are fewer).
pub open spec fn newest_logs(s: Seq<OperationLog>) -> Seq<OperationLog> {
    if s.len() > MAX_LOGS {
        s.subrange(s.len() - MAX_LOGS, s.len() as int)
    } else {
        s
    }
}

/// The last `limit` entries of `s` (all of them when there are fewer).
pub open spec fn last_n(s: Seq<OperationLog>, limit: nat) -> Seq<OperationLog> {
    if s.len() > limit {
        s.subrange(s.len() - limit, s.len() as int)
    } else {
        s
    }
}

/// Whether a log entry concerns account `id`.
pub open spec fn log_of(l: OperationLog, id: u128) -> bool {
    l.account_id == Some(id)
}

/// Whether some global tag is named `name`.
pub open spec fn has_tag(tags: Seq<GlobalTag>, name: Seq<char>) -> bool {
    exists|i: int| 0 <= i < tags.len() && tags[i].name@ == name
}

/// Position of the first global tag named `name`.
pub open spec fn first_tag(tags: Seq<GlobalTag>, name: Seq<char>) -> int {
    choose|i: int|
        0 <= i < tags.len() && tags[i].name@ == name && forall|j: int|
            0 <= j < i ==> tags[j].name@ != name
}

/// Position of the first group named `name`.
pub open spec fn first_group(groups: Seq<String>, name: Seq<char>) -> int {
    choose|i: int|
        0 <= i < groups.len() && groups[i]@ == name && forall|j: int|
            0 <= j < i ==> groups[j]@ != name
}

/// When some group is named `name`, [`first_group`] is the first such position.
pub proof fn lemma_first_group(groups: Seq<String>, name: Seq<char>)
    requires
        has_text(groups, name),
    ensures
        0 <= first_group(groups, name) < groups.len(),
        groups[first_group(groups, name)]@ == name,
        forall|j: int| 0 <= j < first_group(groups, name) ==> groups[j]@ != name,
{
    lemma_first_group_witness(groups, name);
}

proof fn lemma_first_group_witness(groups: Seq<String>, name: Seq<char>) -> (i: int)
    requires
        has_text(groups, name),
    ensures
        0 <= i < groups.len() && groups[i]@ == name && forall|j: int| 0 <= j < i ==> groups[j]@ != name,
    decreases groups.len(),
{
    let d = groups.drop_last();
    if has_text(d, name) {
        let i = lemma_first_group_witness(d, name);
        assert(groups[i] == d[i]);
        assert forall|j: int| 0 <= j < i implies groups[j]@ != name by {
            assert(groups[j] == d[j]);
        }
        i
    } else {
        let i = (groups.len() - 1) as int;
        let k = choose|k: int| 0 <= k < groups.len() && groups[k]@ == name;
        if k < i {
            assert(d[k] == groups[k]);
        }
        assert forall|j: int| 0 <= j < i implies groups[j]@ != name by {
            assert(groups[j] == d[j]);
        }
        i
    }
}

/// A copy of a list of global tags.
pub fn copy_global_tags(v: &Vec<GlobalTag>) -> (r: Vec<GlobalTag>)
    ensures
        r@ == v@,
{
    let mut r: Vec<GlobalTag> = Vec::new();
    let mut i: usize = 0;
    while i < v.len()
        invariant
            i <= v.len(),
            r@ == v@.take(i as int),
        decreases v.len() - i,
    {
        r.push(GlobalTag { name: v[i].name.clone(), color: v[i].color.clone() });
        assert(r@ =~= v@.take(i + 1));
        i = i + 1;
    }
    assert(v@.take(v.len() as int) =~= v@);
    r
}

/// Copies of the entries of `v` from position `from` on.
fn copy_logs_from(v: &Vec<OperationLog>, from: usize) -> (r: Vec<OperationLog>)
    requires
        from <= v.len(),
    ensures
        r@ == v@.subrange(from as int, v.len() as int),
{
    let mut r: Vec<OperationLog> = Vec::new();
    let mut i: usize = from;
    while i < v.len()
        invariant
            from <= i <= v.len(),
            r@ == v@.subrange(from as int, i as int),
        decreases v.len() - i,
    {
        r.push(v[i].copied());
        assert(r@ =~= v@.subrange(from as int, i + 1));
        i = i + 1;
    }
    r
}

/// Position of the first text of `v` equal to `name`.
fn text_position(v: &Vec<String>, name: &str) -> (r: Option<usize>)
    ensures
        r matches Some(i) ==> i < v@.len() && i == first_group(v@, name@) && v@[i as int]@ == name@,
        r is Some ==> has_text(v@, name@),
        r is None ==> !has_text(v@, name@),
{
    let mut i: usize = 0;
    while i < v.len()
        invariant
            i <= v.len(),
            forall|j: int| 0 <= j < i ==> v@[j]@ != name@,
        decreases v.len() - i,
    {
        if text_eq(v[i].as_str(), name) {
            proof {
                let k = first_group(v@, name@);
                assert(0 <= i < v@.len() && v@[i as int]@ == name@ && forall|j: int|
                    0 <= j < i ==> v@[j]@ != name@);
                assert(k == i) by {
                    if k < i {
                    } else if k > i {
                    }
                }
            }
            return Some(i);
        }
        i = i + 1;
    }
    None
}

/// Position of the first global tag named `name`.
fn tag_position(v: &Vec<GlobalTag>, name: &str) -> (r: Option<usize>)
    ensures
        r matches Some(i) ==> i < v@.len() && i == first_tag(v@, name@) && v@[i as int].name@ == name@,
        r is Some ==> has_tag(v@, name@),
        r is None ==> !has_tag(v@, name@),
{
    let mut i: usize = 0;
    while i < v.len()
        invariant
            i <= v.len(),
            forall|j: int| 0 <= j < i ==> v@[j].name@ != name@,
        decreases v.len() - i,
    {
        if text_eq(v[i].name.as_str(), name) {
            proof {
                let k = first_tag(v@, name@);
                assert(0 <= i < v@.len() && v@[i as int].name@ == name@ && forall|j: int|
                    0 <= j < i ==> v@[j].name@ != name@);
                assert(k == i) by {
                    if k < i {
                    } else if k > i {
                    }
                }
            }
            return Some(i);
        }
        i = i + 1;
    }
    None
}

/// The global tags other than those named `name`.
fn tags_without(v: &Vec<GlobalTag>, name: &str) -> (r: Vec<GlobalTag>)
    ensures
        r@ == v@.filter(|t: GlobalTag| t.name@ != name@),
{
    let mut r: Vec<GlobalTag> = Vec::new();
    let mut i: usize = 0;
    while i < v.len()
        invariant
            i <= v.len(),
            r@ == v@.take(i as int).filter(|t: GlobalTag| t.name@ != name@),
        decreases v.len() - i,
    {
        proof {
            reveal_with_fuel(Seq::<_>::filter, 1);
            assert(v@.take(i + 1).drop_last() =~= v@.take(i as int));
        }
        if !text_eq(v[i].name.as_str(), name) {
            r.push(GlobalTag { name: v[i].name.clone(), color: v[i].color.clone() });
        }
        i = i + 1;
    }
    assert(v@.take(v.len() as int) =~= v@);
    r
}

/// The log entries that satisfy `keep(account_id)`, where `keep` drops exactly the
/// entries of the accounts in `ids`.
fn logs_without_accounts(v: &Vec<OperationLog>, ids: &Vec<u128>) -> (r: Vec<OperationLog>)
    ensures
        r@ == v@.filter(
            |l: OperationLog| !(l.account_id matches Some(a) && ids@.contains(a)),
        ),
{
    let mut r: Vec<OperationLog> = Vec::new();
    let mut i: usize = 0;
    while i < v.len()
        invariant
            i <= v.len(),
            r@ == v@.take(i as int).filter(
                |l: OperationLog| !(l.account_id matches Some(a) && ids@.contains(a)),
            ),
        decreases v.len() - i,
    {
        proof {
            reveal_with_fuel(Seq::<_>::filter, 1);
            assert(v@.take(i + 1).drop_last() =~= v@.take(i as int));
        }
        let drop = match v[i].account_id {
            Some(a) => {
                let mut found = false;
                let mut j: usize = 0;
                while j < ids.len()
                    invariant
                        j <= ids.len(),
                        found == (exists|m: int| 0 <= m < j && ids@[m] == a),
                    decreases ids.len() - j,
                {
                    if ids[j] == a {
                        found = true;
                    }
                    j = j + 1;
                }
                assert(found == ids@.contains(a));
                found
            },
            None => false,
        };
        if !drop {
            r.push(v[i].copied());
        }
        i = i + 1;
    }
    assert(v@.take(v.len() as int) =~= v@);
    r
}

/// The data store.
pub struct DataStore {
    pub config: AppConfig,
    pub logs: Vec<OperationLog>,
    pub account_store: AccountStore,
}

impl DataStore {
    /// The store is well formed: its account store is.
    pub open spec fn wf(&self) -> bool {
        self.account_store.wf()
    }

    /// Puts the store together from what was loaded, moving legacy data out of the
    /// configuration: its log entries become the operation log when the log is empty,
    /// and its accounts go into the account store when that is empty.
    pub fn assemble(config: AppConfig, logs: Vec<OperationLog>, account_store: AccountStore) -> (r: (DataStore, StartupMigration))
        requires
            account_store.wf(),
        ensures
            r.0.wf(),
            r.1.logs_moved == (config.logs@.len() > 0 && logs@.len() == 0),
            r.1.logs_moved ==> r.0.logs@ == config.logs@ && r.0.config.logs@.len() == 0,
            !r.1.logs_moved ==> r.0.logs@ == logs@ && r.0.config.logs@ == config.logs@,
            r.1.accounts_moved == (config.accounts@.len() > 0 && account_store@.len() == 0),
            r.1.accounts_moved ==> r.0.account_store@ == insert_all(
                account_store@,
                account_views(config.accounts@),
            ).0 && r.0.config.accounts@.len() == 0,
            !r.1.accounts_moved ==> r.0.account_store@ == account_store@
                && r.0.config.accounts@ == config.accounts@,
            r.0.config.groups@ == config.groups@,
            r.0.config.tags@ == config.tags@,
            r.0.config.settings == config.settings,
    {
        let mut config = config;
        let mut logs = logs;
        let mut account_store = account_store;
        let logs_moved = config.logs.len() > 0 && logs.len() == 0;
        if logs_moved {
            std::mem::swap(&mut logs, &mut config.logs);
        }
        let accounts_moved = config.accounts.len() > 0 && account_store.count() == 0;
        if accounts_moved {
            account_store.bulk_insert(&config.accounts);
            config.accounts = Vec::new();
        }
        (DataStore { config, logs, account_store }, StartupMigration { logs_moved, accounts_moved })
    }

    /// Adds an account made with `Account::new` from the given texts, a fresh
    /// identifier and the current time. Refused when an account has this e-mail
    /// address, or (should the fresh identifier be taken) this identifier.
    pub fn add_account(&mut self, email: String, password: String, nickname: String) -> (r: Result<Account, StoreError>)
        requires
            old(self).wf(),
        ensures
            final(self).wf(),
            final(self).logs == old(self).logs,
            final(self).config == old(self).config,
            has_email(old(self).account_store@, email@) ==> (r matches Err(StoreError::EmailExists(
                e,
            )) && e == email),
            !has_email(old(self).account_store@, email@) ==> (r is Ok || r matches Err(
                StoreError::DuplicateId(_),
            )),
            r matches Err(StoreError::DuplicateId(k)) ==> has_id(old(self).account_store@, k),
            r is Err ==> final(self).account_store@ == old(self).account_store@,
            r matches Ok(a) ==> {
                &&& !has_email(old(self).account_store@, email@)
                &&& final(self).account_store@ == old(self).account_store@.push(a@)
                &&& a@ == new_account_view(a.id, a.created_at, email, password, nickname)
            },
    {
        let id = new_uuid();
        let now = utc_now();
        self.add_account_with(id, now, email, password, nickname)
    }

    /// [`Self::add_account`] with the identifier and creation time given.
    pub fn add_account_with(&mut self, id: u128, now: UtcTime, email: String, password: String, nickname: String) -> (r: Result<Account, StoreError>)
        requires
            old(self).wf(),
        ensures
            final(self).wf(),
            final(self).logs == old(self).logs,
            final(self).config == old(self).config,
            has_email(old(self).account_store@, email@) ==> (r matches Err(StoreError::EmailExists(
                e,
            )) && e == email),
            !has_email(old(self).account_store@, email@) && has_id(old(self).account_store@, id)
                ==> (r matches Err(StoreError::DuplicateId(k)) && k == id),
            r is Err ==> final(self).account_store@ == old(self).account_store@,
            r is Ok <==> !has_email(old(self).account_store@, email@) && !has_id(
                old(self).account_store@,
                id,
            ),
            r matches Ok(a) ==> {
                &&& final(self).account_store@ == old(self).account_store@.push(a@)
                &&& a@ == new_account_view(id, now, email, password, nickname)
            },
    {
        if self.account_store.email_exists(email.as_str()) {
            return Err(StoreError::EmailExists(email));
        }
        let account = Account::new(id, now, email, password, nickname);
        let stored = account.copied();
        match self.account_store.insert_account(stored) {
            Ok(()) => Ok(account),
            Err(e) => Err(e),
        }
    }

    /// A copy of the account with identifier `id`.
    pub fn get_account(&self, id: u128) -> (r: Result<Account, StoreError>)
        requires
            self.wf(),
        ensures
            r is Ok <==> has_id(self.account_store@, id),
            r matches Ok(a) ==> a@ == self.account_store@[index_of(self.account_store@, id)],
            r matches Err(e) ==> e == StoreError::AccountNotFound(id),
    {
        self.account_store.get_account(id)
    }

    /// Copies of all accounts, in store order.
    pub fn get_all_accounts(&self) -> (r: Vec<Account>)
        ensures
            account_views(r@) == self.account_store@,
    {
        self.account_store.get_all_accounts()
    }

    /// Stores `account` in place of the account with its identifier (or adds it),
    /// keeping the stored password of an account that exists already.
    pub fn update_account(&mut self, account: Account)
        requires
            old(self).wf(),
        ensures
            final(self).wf(),
            final(self).logs == old(self).logs,
            final(self).config == old(self).config,
            has_id(old(self).account_store@, account.id) ==> final(self).account_store@ == old(
                self,
            ).account_store@.update(
                index_of(old(self).account_store@, account.id),
                AccountView {
                    password: old(self).account_store@[index_of(
                        old(self).account_store@,
                        account.id,
                    )].password,
                    ..account@
                },
            ),
            !has_id(old(self).account_store@, account.id) ==> final(self).account_store@ == old(
                self,
            ).account_store@.push(account@),
    {
        let mut account = account;
        match self.account_store.get_account(account.id) {
            Ok(existing) => {
                account.password = existing.password;
            },
            Err(_) => {},
        }
        self.account_store.upsert_account(account);
    }

    /// Removes the account with identifier `id` and the log entries about it.
    /// Refused, with nothing changed, when there is no such account.
    pub fn delete_account(&mut self, id: u128) -> (r: Result<(), StoreError>)
        requires
            old(self).wf(),
        ensures
            final(self).wf(),
            final(self).config == old(self).config,
            r is Ok <==> has_id(old(self).account_store@, id),
            r matches Err(e) ==> e == StoreError::AccountNotFound(id) && final(self).logs
                == old(self).logs && final(self).account_store@ == old(self).account_store@,
            r is Ok ==> final(self).account_store@ == old(self).account_store@.remove(
                index_of(old(self).account_store@, id),
            ) && final(self).logs@ == old(self).logs@.filter(
                |l: OperationLog| !log_of(l, id),
            ),
            !has_id(final(self).account_store@, id),
    {
        if !self.account_store.delete_account(id) {
            return Err(StoreError::AccountNotFound(id));
        }
        let ids = vec![id];
        let kept = logs_without_accounts(&self.logs, &ids);
        proof {
            assert(ids@ == seq![id]);
            assert(kept@ =~= self.logs@.filter(|l: OperationLog| !log_of(l, id))) by {
                assert forall|l: OperationLog|
                    !(l.account_id matches Some(a) && ids@.contains(a)) == !log_of(l, id) by {
                    if let Some(a) = l.account_id {
                        if a == id {
                            assert(ids@[0] == a);
                        }
                    }
                }
                assert((|l: OperationLog| !(l.account_id matches Some(a) && ids@.contains(a)))
                    =~= (|l: OperationLog| !log_of(l, id)));
            }
        }
        self.logs = kept;
        Ok(())
    }

    /// Removes the accounts whose identifiers are in `ids` and, when any was removed,
    /// the log entries about them. Gives the identifiers removed (each once, in the
    /// order of their first occurrence) and those of `ids` that named no account.
    pub fn delete_accounts_batch(&mut self, ids: &Vec<u128>) -> (r: (Vec<u128>, Vec<u128>))
        requires
            old(self).wf(),
        ensures
            final(self).wf(),
            final(self).config == old(self).config,
            r.0@ == first_present(old(self).account_store@, ids@),
            r.1@ == ids@.filter(|k: u128| !has_id(old(self).account_store@, k)),
            final(self).account_store@ == old(self).account_store@.filter(
                |a: AccountView| !ids@.contains(a.id),
            ),
            r.0@.len() > 0 ==> final(self).logs@ == old(self).logs@.filter(
                |l: OperationLog| !(l.account_id matches Some(a) && r.0@.contains(a)),
            ),
            r.0@.len() == 0 ==> final(self).logs == old(self).logs,
    {
        let ghost before = self.account_store@;
        if ids.len() == 0 {
            proof {
                assert(ids@.filter(|k: u128| !has_id(before, k)) =~= Seq::<u128>::empty()) by {
                    reveal_with_fuel(Seq::<_>::filter, 1);
                }
                assert(before.filter(|a: AccountView| !ids@.contains(a.id)) =~= before) by {
                    lemma_filter_all(before, |a: AccountView| !ids@.contains(a.id));
                }
            }
            return (Vec::new(), Vec::new());
        }
        let deleted = self.account_store.delete_accounts_batch(ids);
        proof {
            lemma_first_present_members(before, ids@);
        }
        let mut not_found: Vec<u128> = Vec::new();
        let mut i: usize = 0;
        while i < ids.len()
            invariant
                i <= ids.len(),
                deleted@ == first_present(before, ids@),
                forall|k: u128| #[trigger] deleted@.contains(k) <==> (ids@.contains(k) && has_id(before, k)),
                not_found@ == ids@.take(i as int).filter(|k: u128| !has_id(before, k)),
            decreases ids.len() - i,
        {
            proof {
                reveal_with_fuel(Seq::<_>::filter, 1);
                assert(ids@.take(i + 1).drop_last() =~= ids@.take(i as int));
            }
            let k = ids[i];
            let mut found = false;
            let mut j: usize = 0;
            while j < deleted.len()
                invariant
                    j <= deleted.len(),
                    found == (exists|m: int| 0 <= m < j && deleted@[m] == k),
                decreases deleted.len() - j,
            {
                if deleted[j] == k {
                    found = true;
                }
                j = j + 1;
            }
            proof {
                assert(found == deleted@.contains(k));
                assert(ids@.contains(k)) by {
                    assert(ids@[i as int] == k);
                }
            }
            if !found {
                not_found.push(k);
            }
            i = i + 1;
        }
        assert(ids@.take(ids.len() as int) =~= ids@);
        if deleted.len() > 0 {
            self.logs = logs_without_accounts(&self.logs, &deleted);
        }
        (deleted, not_found)
    }

    /// Sets the password of account `id`.
    pub fn update_account_password(&mut self, id: u128, new_password: String) -> (r: Result<(), StoreError>)
        requires
            old(self).wf(),
        ensures
            final(self).wf(),
            final(self).logs == old(self).logs,
            final(self).config == old(self).config,
            r is Ok <==> has_id(old(self).account_store@, id),
            r matches Err(e) ==> e == StoreError::AccountNotFound(id) && final(self).account_store@
                == old(self).account_store@,
            r is Ok ==> final(self).account_store@ == old(self).account_store@.update(
                index_of(old(self).account_store@, id),
                AccountView {
                    password: new_password,
                    ..old(self).account_store@[index_of(old(self).account_store@, id)]
                },
            ),
    {
        let mut account = match self.account_store.get_account(id) {
            Ok(a) => a,
            Err(e) => return Err(e),
        };
        account.password = new_password;
        self.account_store.upsert_account(account);
        Ok(())
    }

    /// Stores a new access token for account `id` with its expiry, marks the account
    /// active and records the current time as its last sign-in.
    pub fn update_account_token(&mut self, id: u128, token: String, expires_at: UtcTime) -> (r: Result<(), StoreError>)
        requires
            old(self).wf(),
        ensures
            final(self).wf(),
            final(self).logs == old(self).logs,
            final(self).config == old(self).config,
            r is Ok <==> has_id(old(self).account_store@, id),
            r matches Err(e) ==> e == StoreError::AccountNotFound(id) && final(self).account_store@
                == old(self).account_store@,
            r is Ok ==> {
                let i = index_of(old(self).account_store@, id);
                &&& final(self).account_store@.len() == old(self).account_store@.len()
                &&& final(self).account_store@[i].last_login_at is Some
                &&& final(self).account_store@ == old(self).account_store@.update(
                    i,
                    AccountView {
                        token: Some(token),
                        token_expires_at: Some(expires_at),
                        last_login_at: final(self).account_store@[i].last_login_at,
                        status: AccountStatus::Active,
                        ..old(self).account_store@[i]
                    },
                )
            },
    {
        let mut account = match self.account_store.get_account(id) {
            Ok(a) => a,
            Err(e) => return Err(e),
        };
        let now = utc_now();
        account.token = Some(token);
        account.token_expires_at = Some(expires_at);
        account.last_login_at = Some(now);
        account.status = AccountStatus::Active;
        self.account_store.upsert_account(account);
        Ok(())
    }

    /// Stores new access and refresh tokens for account `id` with their expiry, marks
    /// the account active, records the current time as its last sign-in, and gives
    /// the payload of the token-refreshed event (none when the expiry cannot be
    /// printed).
    pub fn update_account_tokens(&mut self, id: u128, token: String, refresh_token: String, expires_at: UtcTime) -> (r: Result<Option<TokenRefreshedPayload>, StoreError>)
        requires
            old(self).wf(),
        ensures
            final(self).wf(),
            final(self).logs == old(self).logs,
            final(self).config == old(self).config,
            r is Ok <==> has_id(old(self).account_store@, id),
            r matches Err(e) ==> e == StoreError::AccountNotFound(id) && final(self).account_store@
                == old(self).account_store@,
            r is Ok ==> {
                let i = index_of(old(self).account_store@, id);
                &&& final(self).account_store@.len() == old(self).account_store@.len()
                &&& final(self).account_store@[i].last_login_at is Some
                &&& final(self).account_store@ == old(self).account_store@.update(
                    i,
                    AccountView {
                        token: Some(token),
                        refresh_token: Some(refresh_token),
                        token_expires_at: Some(expires_at),
                        last_login_at: final(self).account_store@[i].last_login_at,
                        status: AccountStatus::Active,
                        ..old(self).account_store@[i]
                    },
                )
            },
            r matches Ok(Some(p)) ==> p.account_id@ == uuid_text(id) && p.token == token
                && p.token_expires_at@ == rfc3339(expires_at),
            r is Ok && within_chrono_range(expires_at) ==> r matches Ok(Some(_)),
    {
        let mut account = match self.account_store.get_account(id) {
            Ok(a) => a,
            Err(e) => return Err(e),
        };
        let now = utc_now();
        let event_token = token.clone();
        account.token = Some(token);
        account.refresh_token = Some(refresh_token);
        account.token_expires_at = Some(expires_at);
        account.last_login_at = Some(now);
        account.status = AccountStatus::Active;
        self.account_store.upsert_account(account);
        Ok(TokenRefreshedPayload::new(id, event_token, expires_at))
    }

    /// The stored password of account `id`.
    pub fn get_decrypted_password(&self, id: u128) -> (r: Result<String, StoreError>)
        requires
            self.wf(),
        ensures
            r is Ok <==> has_id(self.account_store@, id),
            r matches Ok(p) ==> p == self.account_store@[index_of(self.account_store@, id)].password,
            r matches Err(e) ==> e == StoreError::AccountNotFound(id),
    {
        match self.account_store.get_account(id) {
            Ok(a) => Ok(a.password),
            Err(e) => Err(e),
        }
    }

    /// The stored access token of account `id`.
    pub fn get_decrypted_token(&self, id: u128) -> (r: Result<Option<String>, StoreError>)
        requires
            self.wf(),
        ensures
            r is Ok <==> has_id(self.account_store@, id),
            r matches Ok(t) ==> t == self.account_store@[index_of(self.account_store@, id)].token,
            r matches Err(e) ==> e == StoreError::AccountNotFound(id),
    {
        match self.account_store.get_account(id) {
            Ok(a) => Ok(a.token),
            Err(e) => Err(e),
        }
    }

    /// Adds group `name` unless a group of that name exists.
    pub fn add_group(&mut self, name: String)
        ensures
            final(self).account_store == old(self).account_store,
            final(self).logs == old(self).logs,
            final(self).config.tags == old(self).config.tags,
            final(self).config.settings == old(self).config.settings,
            final(self).config.accounts == old(self).config.accounts,
            final(self).config.logs == old(self).config.logs,
            has_text(old(self).config.groups@, name@) ==> final(self).config.groups@ == old(
                self,
            ).config.groups@,
            !has_text(old(self).config.groups@, name@) ==> final(self).config.groups@ == old(
                self,
            ).config.groups@.push(name),
    {
        if !contains_text(&self.config.groups, name.as_str()) {
            self.config.groups.push(name);
        }
    }

    /// Removes group `name` and takes every account of that group out of any group.
    pub fn delete_group(&mut self, name: String)
        requires
            old(self).wf(),
        ensures
            final(self).wf(),
            final(self).logs == old(self).logs,
            final(self).config.tags == old(self).config.tags,
            final(self).config.settings == old(self).config.settings,
            final(self).config.accounts == old(self).config.accounts,
            final(self).config.logs == old(self).config.logs,
            final(self).config.groups@ == old(self).config.groups@.filter(
                |g: String| g@ != name@,
            ),
            final(self).account_store@ == old(self).account_store@.map_values(
                |a: AccountView| regroup(a, name@, None),
            ),
    {
        self.config.groups = texts_without(&self.config.groups, name.as_str());
        self.account_store.update_group_for_all(name.as_str(), None);
    }

    /// Renames group `old_name` to `new_name`, and moves its accounts along. Refused,
    /// with nothing changed, when a group is named `new_name` already, or else when
    /// none is named `old_name`.
    pub fn rename_group(&mut self, old_name: String, new_name: String) -> (r: Result<(), StoreError>)
        requires
            old(self).wf(),
        ensures
            final(self).wf(),
            final(self).logs == old(self).logs,
            final(self).config.tags == old(self).config.tags,
            final(self).config.settings == old(self).config.settings,
            final(self).config.accounts == old(self).config.accounts,
            final(self).config.logs == old(self).config.logs,
            has_text(old(self).config.groups@, new_name@) ==> (r matches Err(
                StoreError::GroupExists(n),
            ) && n == new_name),
            !has_text(old(self).config.groups@, new_name@) && !has_text(
                old(self).config.groups@,
                old_name@,
            ) ==> (r matches Err(StoreError::GroupNotFound(n)) && n == old_name),
            r is Ok <==> !has_text(old(self).config.groups@, new_name@) && has_text(
                old(self).config.groups@,
                old_name@,
            ),
            r is Err ==> final(self).config.groups == old(self).config.groups
                && final(self).account_store@ == old(self).account_store@,
            r is Ok ==> final(self).config.groups@ == old(self).config.groups@.update(
                first_group(old(self).config.groups@, old_name@),
                new_name,
            ) && final(self).account_store@ == old(self).account_store@.map_values(
                |a: AccountView| regroup(a, old_name@, Some(new_name)),
            ),
    {
        if contains_text(&self.config.groups, new_name.as_str()) {
            return Err(StoreError::GroupExists(new_name));
        }
        match text_position(&self.config.groups, old_name.as_str()) {
            Some(i) => {
                self.config.groups.set(i, new_name.clone());
                self.account_store.update_group_for_all(old_name.as_str(), Some(new_name));
                Ok(())
            },
            None => Err(StoreError::GroupNotFound(old_name)),
        }
    }

    /// Copies of the groups, in order.
    pub fn get_groups(&self) -> (r: Vec<String>)
        ensures
            r@ == self.config.groups@,
    {
        copy_texts(&self.config.groups)
    }

    /// Copies of the global tags, in order.
    pub fn get_tags(&self) -> (r: Vec<GlobalTag>)
        ensures
            r@ == self.config.tags@,
    {
        copy_global_tags(&self.config.tags)
    }

    /// Adds a global tag. Refused, with nothing changed, when a tag of its name exists.
    pub fn add_tag(&mut self, tag: GlobalTag) -> (r: Result<(), StoreError>)
        ensures
            final(self).account_store == old(self).account_store,
            final(self).logs == old(self).logs,
            final(self).config.groups == old(self).config.groups,
            final(self).config.settings == old(self).config.settings,
            final(self).config.accounts == old(self).config.accounts,
            final(self).config.logs == old(self).config.logs,
            r is Ok <==> !has_tag(old(self).config.tags@, tag.name@),
            r matches Err(e) ==> e == StoreError::TagExists(tag.name) && final(self).config.tags
                == old(self).config.tags,
            r is Ok ==> final(self).config.tags@ == old(self).config.tags@.push(tag),
    {
        if tag_position(&self.config.tags, tag.name.as_str()).is_some() {
            return Err(StoreError::TagExists(tag.name));
        }
        self.config.tags.push(tag);
        Ok(())
    }

    /// Replaces global tag `old_name` by `tag`, and renames it on every account when
    /// the name changes. Refused, with nothing changed, when the name changes to one
    /// that another tag has, or else when no tag is named `old_name`.
    pub fn update_tag(&mut self, old_name: String, tag: GlobalTag) -> (r: Result<(), StoreError>)
        requires
            old(self).wf(),
        ensures
            final(self).wf(),
            final(self).logs == old(self).logs,
            final(self).config.groups == old(self).config.groups,
            final(self).config.settings == old(self).config.settings,
            final(self).config.accounts == old(self).config.accounts,
            final(self).config.logs == old(self).config.logs,
            old_name@ != tag.name@ && has_tag(old(self).config.tags@, tag.name@) ==> (r matches Err(
                StoreError::TagExists(n),
            ) && n == tag.name),
            !(old_name@ != tag.name@ && has_tag(old(self).config.tags@, tag.name@)) && !has_tag(
                old(self).config.tags@,
                old_name@,
            ) ==> (r matches Err(StoreError::TagNotFound(n)) && n == old_name),
            r is Ok <==> !(old_name@ != tag.name@ && has_tag(old(self).config.tags@, tag.name@))
                && has_tag(old(self).config.tags@, old_name@),
            r is Err ==> final(self).config.tags == old(self).config.tags
                && final(self).account_store@ == old(self).account_store@,
            r is Ok ==> final(self).config.tags@ == old(self).config.tags@.update(
                first_tag(old(self).config.tags@, old_name@),
                tag,
            ),
            r is Ok && old_name@ != tag.name@ ==> final(self).account_store@ == old(
                self,
            ).account_store@.map_values(|a: AccountView| retag(a, old_name@, tag.name)),
            r is Ok && old_name@ == tag.name@ ==> final(self).account_store@ == old(
                self,
            ).account_store@,
    {
        let renaming = !text_eq(old_name.as_str(), tag.name.as_str());
        if renaming && tag_position(&self.config.tags, tag.name.as_str()).is_some() {
            return Err(StoreError::TagExists(tag.name));
        }
        match tag_position(&self.config.tags, old_name.as_str()) {
            Some(i) => {
                let new_name = tag.name.clone();
                self.config.tags.set(i, tag);
                if renaming {
                    self.account_store.rename_tag_for_all(old_name.as_str(), &new_name);
                }
                Ok(())
            },
            None => Err(StoreError::TagNotFound(old_name)),
        }
    }

    /// Removes global tag `name` and removes it from every account.
    pub fn delete_tag(&mut self, name: String)
        requires
            old(self).wf(),
        ensures
            final(self).wf(),
            final(self).logs == old(self).logs,
            final(self).config.groups == old(self).config.groups,
            final(self).config.settings == old(self).config.settings,
            final(self).config.accounts == old(self).config.accounts,
            final(self).config.logs == old(self).config.logs,
            final(self).config.tags@ == old(self).config.tags@.filter(
                |t: GlobalTag| t.name@ != name@,
            ),
            final(self).account_store@ == old(self).account_store@.map_values(
                |a: AccountView| untag(a, name@),
            ),
    {
        self.config.tags = tags_without(&self.config.tags, name.as_str());
        self.account_store.remove_tag_for_all(name.as_str());
    }

    /// Appends a log entry, then drops the oldest entries beyond `MAX_LOGS`.
    pub fn add_log(&mut self, log: OperationLog)
        ensures
            final(self).account_store == old(self).account_store,
            final(self).config == old(self).config,
            final(self).logs@ == newest_logs(old(self).logs@.push(log)),
    {
        self.logs.push(log);
        if self.logs.len() > MAX_LOGS {
            let start = self.logs.len() - MAX_LOGS;
            self.logs = copy_logs_from(&self.logs, start);
        }
    }

    /// Copies of the log entries: the last `limit` of them, or all without a limit.
    pub fn get_logs(&self, limit: Option<usize>) -> (r: Vec<OperationLog>)
        ensures
            limit matches Some(n) ==> r@ == last_n(self.logs@, n as nat),
            limit is None ==> r@ == self.logs@,
    {
        let start = match limit {
            Some(n) => self.logs.len().saturating_sub(n),
            None => 0,
        };
        let r = copy_logs_from(&self.logs, start);
        assert(self.logs@.subrange(0, self.logs@.len() as int) =~= self.logs@);
        r
    }

    /// Removes every log entry.
    pub fn clear_logs(&mut self)
        ensures
            final(self).account_store == old(self).account_store,
            final(self).config == old(self).config,
            final(self).logs@.len() == 0,
    {
        self.logs = Vec::new();
    }

    /// A copy of the settings.
    pub fn get_settings(&self) -> (r: Settings)
        ensures
            r == self.config.settings,
    {
        self.config.settings.copied()
    }

    /// Replaces the settings.
    pub fn update_settings(&mut self, settings: Settings)
        ensures
            final(self).account_store == old(self).account_store,
            final(self).logs == old(self).logs,
            final(self).config.groups == old(self).config.groups,
            final(self).config.tags == old(self).config.tags,
            final(self).config.settings == settings,
            final(self).config.accounts == old(self).config.accounts,
            final(self).config.logs == old(self).config.logs,
    {
        self.config.settings = settings;
    }
}

/// Filtering by a predicate that every element meets keeps the sequence whole.
proof fn lemma_filter_all<A>(s: Seq<A>, p: spec_fn(A) -> bool)
    requires
        forall|i: int| 0 <= i < s.len() ==> p(s[i]),
    ensures
        s.filter(p) == s,
    decreases s.len(),
{
    reveal_with_fuel(Seq::<_>::filter, 1);
    if s.len() > 0 {
        lemma_filter_all(s.drop_last(), p);
        assert(s.drop_last().push(s.last()) =~= s);
    } else {
        assert(s.filter(p) =~= s);
    }
}

/// An identifier is among those `first_present` gives exactly when it occurs in
/// `ids` and names a stored account.
pub proof fn lemma_first_present_members(s: Seq<AccountView>, ids: Seq<u128>)
    ensures
        forall|k: u128| #[trigger] first_present(s, ids).contains(k) <==> (ids.contains(k) && has_id(s, k)),
    decreases ids.len(),
{
    if ids.len() > 0 {
        lemma_first_present_members(s, ids.drop_last());
        let d = first_present(s, ids.drop_last());
        assert forall|k: u128| #[trigger] first_present(s, ids).contains(k) <==> (ids.contains(k)
            && has_id(s, k)) by {
            if ids.contains(k) {
                let m = choose|m: int| 0 <= m < ids.len() && ids[m] == k;
                if m < ids.len() - 1 {
                    assert(ids.drop_last()[m] == k);
                }
            }
            if ids.drop_last().contains(k) {
                let m = choose|m: int| 0 <= m < ids.drop_last().len() && ids.drop_last()[m] == k;
                assert(ids[m] == k);
            }
            if has_id(s, ids.last()) && !d.contains(ids.last()) {
                assert(d.push(ids.last()).last() == ids.last());
                if d.contains(k) {
                    let m = choose|m: int| 0 <= m < d.len() && d[m] == k;
                    assert(d.push(ids.last())[m] == k);
                }
                if d.push(ids.last()).contains(k) {
                    let m = choose|m: int| 0 <= m < d.len() + 1 && d.push(ids.last())[m] == k;
                    if m < d.len() {
                        assert(d[m] == k);
                    }
                }
            }
        }
    }
}

} // verus!
