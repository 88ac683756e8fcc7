//! The account store: accounts in insertion order, at most one per identifier.
use vstd::prelude::*;
use crate::model::{account_views, lemma_views_push, Account, AccountView, TagWithColor};
use crate::text::{text_eq, texts_without};

verus! {

/// Why a store operation was refused.
#[derive(Debug)]
pub enum StoreError {
    /// An account with this identifier is already stored.
    DuplicateId(u128),
    /// No account has this identifier.
    AccountNotFound(u128),
    /// An account with this e-mail address is already stored.
    EmailExists(String),
    /// A group of this name already exists.
    GroupExists(String),
    /// No group has this name.
    GroupNotFound(String),
    /// A tag of this name already exists.
    TagExists(String),
    /// No tag has this name.
    TagNotFound(String),
}

/// No two accounts share an identifier.
pub open spec fn ids_distinct(s: Seq<AccountView>) -> bool {
    forall|i: int, j: int| 0 <= i < s.len() && 0 <= j < s.len() && i != j ==> s[i].id != s[j].id
}

/// Some account has identifier `id`.
pub open spec fn has_id(s: Seq<AccountView>, id: u128) -> bool {
    exists|i: int| 0 <= i < s.len() && s[i].id == id
}

/// Position of the account with identifier `id`.
pub open spec fn index_of(s: Seq<AccountView>, id: u128) -> int {
    choose|i: int| 0 <= i < s.len() && s[i].id == id
}

/// Some account has e-mail address `email`.
pub open spec fn has_email(s: Seq<AccountView>, email: Seq<char>) -> bool {
    exists|i: int| 0 <= i < s.len() && s[i].email@ == email
}

/// `a` with its group replaced by `g` when its group is named `name`.
pub open spec fn regroup(a: AccountView, name: Seq<char>, g: Option<String>) -> AccountView {
    if a.group matches Some(x) && x@ == name {
        AccountView { group: g, ..a }
    } else {
        a
    }
}

/// A tag name after renaming `old` to `new`.
pub open spec fn renamed(t: String, old: Seq<char>, new: String) -> String {
    if t@ == old {
        new
    } else {
        t
    }
}

/// A coloured tag after renaming `old` to `new`.
pub open spec fn renamed_color(t: TagWithColor, old: Seq<char>, new: String) -> TagWithColor {
    if t.name@ == old {
        TagWithColor { name: new, color: t.color }
    } else {
        t
    }
}

/// `a` with every tag named `old` renamed to `new`, in both tag lists.
pub open spec fn retag(a: AccountView, old: Seq<char>, new: String) -> AccountView {
    AccountView {
        tags: a.tags.map_values(|t: String| renamed(t, old, new)),
        tag_colors: a.tag_colors.map_values(|t: TagWithColor| renamed_color(t, old, new)),
        ..a
    }
}

/// `a` without any tag named `name`, in both tag lists.
pub open spec fn untag(a: AccountView, name: Seq<char>) -> AccountView {
    AccountView {
        tags: a.tags.filter(|t: String| t@ != name),
        tag_colors: a.tag_colors.filter(|t: TagWithColor| t.name@ != name),
        ..a
    }
}

/// The identifiers of `ids` that name a stored account, each once, in the order
/// of their first occurrence in `ids`.
pub open spec fn first_present(s: Seq<AccountView>, ids: Seq<u128>) -> Seq<u128>
    decreases ids.len(),
{
    if ids.len() == 0 {
        Seq::empty()
    } else {
        let d = first_present(s, ids.drop_last());
        let k = ids.last();
        if has_id(s, k) && !d.contains(k) {
            d.push(k)
        } else {
            d
        }
    }
}

/// The store after inserting the accounts of `a` one by one, each insertion
/// skipped when its identifier is taken; with the number of accounts inserted.
pub open spec fn insert_all(s: Seq<AccountView>, a: Seq<AccountView>) -> (Seq<AccountView>, nat)
    decreases a.len(),
{
    if a.len() == 0 {
        (s, 0)
    } else {
        let (t, n) = insert_all(s, a.drop_last());
        if has_id(t, a.last().id) {
            (t, n)
        } else {
            (t.push(a.last()), n + 1)
        }
    }
}

/// The accounts of a store, in insertion order.
pub struct AccountStore {
    accounts: Vec<Account>,
}

impl View for AccountStore {
    type V = Seq<AccountView>;

    closed spec fn view(&self) -> Seq<AccountView> {
        account_views(self.accounts@)
    }
}

/// Coloured tags of `v` without those named `name`.
fn drop_named_colors(v: &Vec<TagWithColor>, name: &str) -> (r: Vec<TagWithColor>)
    ensures
        r@ == v@.filter(|t: TagWithColor| t.name@ != name@),
{
    let mut r: Vec<TagWithColor> = Vec::new();
    let mut i: usize = 0;
    while i < v.len()
        invariant
            i <= v.len(),
            r@ == v@.take(i as int).filter(|t: TagWithColor| t.name@ != name@),
        decreases v.len() - i,
    {
        proof {
            reveal_with_fuel(Seq::<_>::filter, 1);
            assert(v@.take(i + 1).drop_last() =~= v@.take(i as int));
        }
        if !text_eq(v[i].name.as_str(), name) {
            r.push(TagWithColor { name: v[i].name.clone(), color: v[i].color.clone() });
        }
        i = i + 1;
    }
    assert(v@.take(v.len() as int) =~= v@);
    r
}

/// Tag names of `v` with `old` renamed to `new`.
fn rename_tags(v: &Vec<String>, old: &str, new: &String) -> (r: Vec<String>)
    ensures
        r@ == v@.map_values(|t: String| renamed(t, old@, *new)),
{
    let mut r: Vec<String> = Vec::new();
    let mut i: usize = 0;
    while i < v.len()
        invariant
            i <= v.len(),
            r@ == v@.take(i as int).map_values(|t: String| renamed(t, old@, *new)),
        decreases v.len() - i,
    {
        if text_eq(v[i].as_str(), old) {
            r.push(new.clone());
        } else {
            r.push(v[i].clone());
        }
        assert(r@ =~= v@.take(i + 1).map_values(|t: String| renamed(t, old@, *new)));
        i = i + 1;
    }
    assert(v@.take(v.len() as int) =~= v@);
    r
}

/// Coloured tags of `v` with `old` renamed to `new`.
fn rename_colors(v: &Vec<TagWithColor>, old: &str, new: &String) -> (r: Vec<TagWithColor>)
    ensures
        r@ == v@.map_values(|t: TagWithColor| renamed_color(t, old@, *new)),
{
    let mut r: Vec<TagWithColor> = Vec::new();
    let mut i: usize = 0;
    while i < v.len()
        invariant
            i <= v.len(),
            r@ == v@.take(i as int).map_values(|t: TagWithColor| renamed_color(t, old@, *new)),
        decreases v.len() - i,
    {
        if text_eq(v[i].name.as_str(), old) {
            r.push(TagWithColor { name: new.clone(), color: v[i].color.clone() });
        } else {
            r.push(TagWithColor { name: v[i].name.clone(), color: v[i].color.clone() });
        }
        assert(r@ =~= v@.take(i + 1).map_values(
            |t: TagWithColor| renamed_color(t, old@, *new),
        ));
        i = i + 1;
    }
    assert(v@.take(v.len() as int) =~= v@);
    r
}

impl AccountStore {
    /// The store is well formed: no two accounts share an identifier.
    pub open spec fn wf(&self) -> bool {
        ids_distinct(self@)
    }

    /// An empty store.
    pub fn new() -> (s: AccountStore)
        ensures
            s@ == Seq::<AccountView>::empty(),
            s.wf(),
    {
        let s = AccountStore { accounts: Vec::new() };
        assert(s@ =~= Seq::<AccountView>::empty());
        s
    }

    /// Number of stored accounts.
    pub fn count(&self) -> (n: usize)
        ensures
            n == self@.len(),
    {
        self.accounts.len()
    }

    /// Position of the account with identifier `id`, if there is one.
    fn position(&self, id: u128) -> (r: Option<usize>)
        requires
            self.wf(),
        ensures
            r matches Some(i) ==> i < self@.len() && self@[i as int].id == id && index_of(self@, id)
                == i,
            r is None ==> !has_id(self@, id),
    {
        let mut i: usize = 0;
        while i < self.accounts.len()
            invariant
                i <= self.accounts.len(),
                self.wf(),
                self@.len() == self.accounts.len(),
                forall|j: int| 0 <= j < i ==> self@[j].id != id,
            decreases self.accounts.len() - i,
        {
            if self.accounts[i].id == id {
                proof {
                    assert(self@[i as int].id == id);
                    let k = index_of(self@, id);
                    assert(self@[k].id == id);
                    if k != i {
                        assert(self@[k].id != self@[i as int].id);
                    }
                }
                return Some(i);
            }
            i = i + 1;
        }
        None
    }

    /// Whether an account has the e-mail address `email` (exact comparison).
    pub fn email_exists(&self, email: &str) -> (b: bool)
        ensures
            b == has_email(self@, email@),
    {
        let mut i: usize = 0;
        while i < self.accounts.len()
            invariant
                i <= self.accounts.len(),
                self@.len() == self.accounts.len(),
                forall|j: int| 0 <= j < i ==> self@[j].email@ != email@,
            decreases self.accounts.len() - i,
        {
            if text_eq(self.accounts[i].email.as_str(), email) {
                assert(self@[i as int].email@ == email@);
                return true;
            }
            i = i + 1;
        }
        false
    }

    /// Stores a new account. Refused, with the store unchanged, when an account with
    /// the same identifier is stored already.
    pub fn insert_account(&mut self, account: Account) -> (r: Result<(), StoreError>)
        requires
            old(self).wf(),
        ensures
            final(self).wf(),
            r is Ok <==> !has_id(old(self)@, account.id),
            r is Ok ==> final(self)@ == old(self)@.push(account@),
            r matches Err(e) ==> e == StoreError::DuplicateId(account.id) && final(self)@ == old(
                self,
            )@,
    {
        match self.position(account.id) {
            Some(_) => Err(StoreError::DuplicateId(account.id)),
            None => {
                let ghost before = self@;
                self.accounts.push(account);
                assert(self@ =~= before.push(account@));
                Ok(())
            },
        }
    }

    /// A copy of the account with identifier `id`.
    pub fn get_account(&self, id: u128) -> (r: Result<Account, StoreError>)
        requires
            self.wf(),
        ensures
            r is Ok <==> has_id(self@, id),
            r matches Ok(a) ==> a@ == self@[index_of(self@, id)],
            r matches Err(e) ==> e == StoreError::AccountNotFound(id),
    {
        match self.position(id) {
            Some(i) => Ok(self.accounts[i].copied()),
            None => Err(StoreError::AccountNotFound(id)),
        }
    }

    /// Copies of all accounts, in store order.
    pub fn get_all_accounts(&self) -> (r: Vec<Account>)
        ensures
            account_views(r@) == self@,
    {
        let mut r: Vec<Account> = Vec::new();
        let mut i: usize = 0;
        while i < self.accounts.len()
            invariant
                i <= self.accounts.len(),
                self@.len() == self.accounts.len(),
                account_views(r@) == self@.take(i as int),
            decreases self.accounts.len() - i,
        {
            assert(self@[i as int] == self.accounts@[i as int]@);
            let c = self.accounts[i].copied();
            let ghost rr = r@;
            r.push(c);
            assert(r@ == rr.push(c));
            proof {
                lemma_views_push(rr, c);
            }
            assert(account_views(r@) =~= self@.take(i + 1));
            i = i + 1;
        }
        assert(self@.take(self@.len() as int) =~= self@);
        r
    }

    /// Replaces the stored account that has the identifier of `account`, or stores
    /// it at the end when there is none.
    pub fn upsert_account(&mut self, account: Account)
        requires
            old(self).wf(),
        ensures
            final(self).wf(),
            has_id(old(self)@, account.id) ==> final(self)@ == old(self)@.update(
                index_of(old(self)@, account.id),
                account@,
            ),
            !has_id(old(self)@, account.id) ==> final(self)@ == old(self)@.push(account@),
    {
        let ghost before = self@;
        match self.position(account.id) {
            Some(i) => {
                self.accounts.set(i, account);
                assert(self@ =~= before.update(i as int, account@));
            },
            None => {
                self.accounts.push(account);
                assert(self@ =~= before.push(account@));
            },
        }
    }

    /// Removes the account with identifier `id`; tells whether there was one.
    pub fn delete_account(&mut self, id: u128) -> (found: bool)
        requires
            old(self).wf(),
        ensures
            final(self).wf(),
            found == has_id(old(self)@, id),
            found ==> final(self)@ == old(self)@.remove(index_of(old(self)@, id)),
            !found ==> final(self)@ == old(self)@,
            !has_id(final(self)@, id),
    {
        let ghost before = self@;
        match self.position(id) {
            Some(i) => {
                self.accounts.remove(i);
                assert(self@ =~= before.remove(i as int));
                assert(!has_id(self@, id)) by {
                    if has_id(self@, id) {
                        let k = choose|k: int| 0 <= k < self@.len() && self@[k].id == id;
                        if k < i {
                            assert(before[k].id == id);
                        } else {
                            assert(before[k + 1].id == id);
                        }
                    }
                }
                true
            },
            None => false,
        }
    }

    /// Moves every account of group `name` into group `new_group` (none: out of
    /// any group).
    pub fn update_group_for_all(&mut self, name: &str, new_group: Option<String>)
        requires
            old(self).wf(),
        ensures
            final(self).wf(),
            final(self)@ == old(self)@.map_values(|a: AccountView| regroup(a, name@, new_group)),
    {
        let ghost before = self@;
        let mut i: usize = 0;
        while i < self.accounts.len()
            invariant
                i <= self.accounts.len(),
                self@.len() == before.len(),
                self.accounts.len() == before.len(),
                forall|j: int| 0 <= j < i ==> self@[j] == regroup(before[j], name@, new_group),
                forall|j: int| i <= j < before.len() ==> self@[j] == before[j],
            decreases self.accounts.len() - i,
        {
            let in_group = match &self.accounts[i].group {
                Some(g) => text_eq(g.as_str(), name),
                None => false,
            };
            if in_group {
                let mut a = self.accounts[i].copied();
                a.group = crate::text::copy_opt_text(&new_group);
                let ghost prev = self@;
                self.accounts.set(i, a);
                assert(self@ =~= prev.update(i as int, regroup(before[i as int], name@, new_group)));
            }
            i = i + 1;
        }
        assert(self@ =~= before.map_values(|a: AccountView| regroup(a, name@, new_group)));
    }

    /// Renames tag `old_name` to `new_name` on every account.
    pub fn rename_tag_for_all(&mut self, old_name: &str, new_name: &String)
        requires
            old(self).wf(),
        ensures
            final(self).wf(),
            final(self)@ == old(self)@.map_values(|a: AccountView| retag(a, old_name@, *new_name)),
    {
        let ghost before = self@;
        let mut i: usize = 0;
        while i < self.accounts.len()
            invariant
                i <= self.accounts.len(),
                self@.len() == before.len(),
                self.accounts.len() == before.len(),
                forall|j: int| 0 <= j < i ==> self@[j] == retag(before[j], old_name@, *new_name),
                forall|j: int| i <= j < before.len() ==> self@[j] == before[j],
            decreases self.accounts.len() - i,
        {
            let mut a = self.accounts[i].copied();
            a.tags = rename_tags(&self.accounts[i].tags, old_name, new_name);
            a.tag_colors = rename_colors(&self.accounts[i].tag_colors, old_name, new_name);
            let ghost prev = self@;
            self.accounts.set(i, a);
            assert(self@ =~= prev.update(i as int, retag(before[i as int], old_name@, *new_name)));
            i = i + 1;
        }
        assert(self@ =~= before.map_values(|a: AccountView| retag(a, old_name@, *new_name)));
    }

    /// Removes tag `name` from every account.
    pub fn remove_tag_for_all(&mut self, name: &str)
        requires
            old(self).wf(),
        ensures
            final(self).wf(),
            final(self)@ == old(self)@.map_values(|a: AccountView| untag(a, name@)),
    {
        let ghost before = self@;
        let mut i: usize = 0;
        while i < self.accounts.len()
            invariant
                i <= self.accounts.len(),
                self@.len() == before.len(),
                self.accounts.len() == before.len(),
                forall|j: int| 0 <= j < i ==> self@[j] == untag(before[j], name@),
                forall|j: int| i <= j < before.len() ==> self@[j] == before[j],
            decreases self.accounts.len() - i,
        {
            let mut a = self.accounts[i].copied();
            a.tags = texts_without(&self.accounts[i].tags, name);
            a.tag_colors = drop_named_colors(&self.accounts[i].tag_colors, name);
            let ghost prev = self@;
            self.accounts.set(i, a);
            assert(self@ =~= prev.update(i as int, untag(before[i as int], name@)));
            i = i + 1;
        }
        assert(self@ =~= before.map_values(|a: AccountView| untag(a, name@)));
    }
    /// Removes every account whose identifier is in `ids`. Gives the identifiers
    /// that named a stored account, each once, in the order they first occur in `ids`.
    pub fn delete_accounts_batch(&mut self, ids: &Vec<u128>) -> (deleted: Vec<u128>)
        requires
            old(self).wf(),
        ensures
            final(self).wf(),
            deleted@ == first_present(old(self)@, ids@),
            final(self)@ == old(self)@.filter(|a: AccountView| !ids@.contains(a.id)),
    {
        let mut deleted: Vec<u128> = Vec::new();
        let mut i: usize = 0;
        while i < ids.len()
            invariant
                i <= ids.len(),
                self.wf(),
                deleted@ == first_present(self@, ids@.take(i as int)),
            decreases ids.len() - i,
        {
            let k = ids[i];
            assert(ids@.take(i + 1).drop_last() =~= ids@.take(i as int));
            let present = match self.position(k) {
                Some(_) => true,
                None => false,
            };
            if present {
                let mut seen = false;
                let mut j: usize = 0;
                while j < deleted.len()
                    invariant
                        j <= deleted.len(),
                        seen == (exists|m: int| 0 <= m < j && deleted@[m] == k),
                    decreases deleted.len() - j,
                {
                    if deleted[j] == k {
                        seen = true;
                    }
                    j = j + 1;
                }
                if !seen {
                    deleted.push(k);
                }
            }
            i = i + 1;
        }
        assert(ids@.take(ids.len() as int) =~= ids@);
        let ghost before = self@;
        let mut kept: Vec<Account> = Vec::new();
        let mut n: usize = 0;
        while n < self.accounts.len()
            invariant
                n <= self.accounts.len(),
                self@ == before,
                self.wf(),
                self@.len() == self.accounts.len(),
                account_views(kept@) == before.take(n as int).filter(
                    |a: AccountView| !ids@.contains(a.id),
                ),
                forall|p: int| 0 <= p < kept@.len() ==> exists|q: int| 0 <= q < n && #[trigger] kept@[p]@ == before[q],
                ids_distinct(account_views(kept@)),
            decreases self.accounts.len() - n,
        {
            proof {
                reveal_with_fuel(Seq::<_>::filter, 1);
                assert(before.take(n + 1).drop_last() =~= before.take(n as int));
            }
            let k = self.accounts[n].id;
            let mut listed = false;
            let mut j: usize = 0;
            while j < ids.len()
                invariant
                    j <= ids.len(),
                    listed == (exists|m: int| 0 <= m < j && ids@[m] == k),
                decreases ids.len() - j,
            {
                if ids[j] == k {
                    listed = true;
                }
                j = j + 1;
            }
            assert(listed == ids@.contains(k));
            if !listed {
                let c = self.accounts[n].copied();
                assert(c@ == before[n as int]);
                let ghost kk = kept@;
                kept.push(c);
                proof {
                    lemma_views_push(kk, c);
                    assert forall|p: int| 0 <= p < kept@.len() implies exists|q: int| 0 <= q < n + 1 && #[trigger] kept@[p]@ == before[q] by {
                        if p < kk.len() {
                            assert(kept@[p] == kk[p]);
                        } else {
                            assert(kept@[p]@ == before[n as int]);
                        }
                    }
                    assert forall|x: int, y: int| 0 <= x < kept@.len() && 0 <= y < kept@.len() && x != y implies account_views(kept@)[x].id != account_views(kept@)[y].id by {
                        if x < kk.len() && y < kk.len() {
                            assert(account_views(kk)[x].id != account_views(kk)[y].id);
                        } else if x < kk.len() {
                            assert(kept@[x] == kk[x]);
                            let q = choose|q: int| 0 <= q < n && #[trigger] kk[x]@ == before[q];
                            assert(before[q].id != before[n as int].id);
                        } else if y < kk.len() {
                            assert(kept@[y] == kk[y]);
                            let q = choose|q: int| 0 <= q < n && #[trigger] kk[y]@ == before[q];
                            assert(before[q].id != before[n as int].id);
                        }
                    }
                }
            } else {
                proof {
                    assert forall|p: int| 0 <= p < kept@.len() implies exists|q: int| 0 <= q < n + 1 && #[trigger] kept@[p]@ == before[q] by {
                        let q = choose|q: int| 0 <= q < n && #[trigger] kept@[p]@ == before[q];
                    }
                }
            }
            n = n + 1;
        }
        assert(before.take(before.len() as int) =~= before);
        self.accounts = kept;
        deleted
    }

    /// Inserts the accounts of `accounts` one by one, skipping any whose identifier
    /// is taken; gives the number inserted.
    pub fn bulk_insert(&mut self, accounts: &Vec<Account>) -> (n: usize)
        requires
            old(self).wf(),
        ensures
            final(self).wf(),
            (final(self)@, n as nat) == insert_all(old(self)@, account_views(accounts@)),
    {
        let ghost before = self@;
        let mut n: usize = 0;
        let mut i: usize = 0;
        while i < accounts.len()
            invariant
                i <= accounts.len(),
                self.wf(),
                n <= i,
                (self@, n as nat) == insert_all(before, account_views(accounts@).take(i as int)),
            decreases accounts.len() - i,
        {
            proof {
                assert(account_views(accounts@).take(i + 1).drop_last() =~= account_views(accounts@).take(i as int));
            }
            let a = accounts[i].copied();
            match self.insert_account(a) {
                Ok(()) => {
                    n = n + 1;
                },
                Err(_) => {},
            }
            i = i + 1;
        }
        assert(account_views(accounts@).take(accounts.len() as int) =~= account_views(accounts@));
        n
    }
}

} // verus!
