//! Operations over many accounts at once: tag edits, manual ordering and import.
use vstd::prelude::*;
use crate::account_store::{has_email, has_id, index_of, insert_all, AccountStore};
use crate::data_store::{copy_global_tags, first_tag, has_tag, DataStore};
use crate::ids::{parse_uuid, uuid_parse};
use crate::model::{account_views, Account, AccountView, GlobalTag, TagWithColor};
use crate::text::{contains_text, has_text, text_eq};

verus! {

/// Counts of an import.
#[derive(Debug)]
pub struct ImportResult {
    pub accounts_added: usize,
    pub accounts_skipped: usize,
    pub groups_added: usize,
}

/// Whether some coloured tag is named `name`.
pub open spec fn has_color(c: Seq<TagWithColor>, name: Seq<char>) -> bool {
    exists|i: int| 0 <= i < c.len() && c[i].name@ == name
}

/// `a` after adding tag `name`: nothing happens when it has the tag; otherwise the
/// tag is appended, and when a global tag has that name and `a` has no colour for
/// it, the first such global tag's colour is appended too.
pub open spec fn add_one_tag(a: AccountView, name: String, global: Seq<GlobalTag>) -> AccountView {
    if has_text(a.tags, name@) {
        a
    } else if has_tag(global, name@) && !has_color(a.tag_colors, name@) {
        AccountView {
            tags: a.tags.push(name),
            tag_colors: a.tag_colors.push(
                TagWithColor { name: name, color: global[first_tag(global, name@)].color },
            ),
            ..a
        }
    } else {
        AccountView { tags: a.tags.push(name), ..a }
    }
}

/// `a` after adding the tags of `add` in turn.
pub open spec fn add_tags(a: AccountView, add: Seq<String>, global: Seq<GlobalTag>) -> AccountView
    decreases add.len(),
{
    if add.len() == 0 {
        a
    } else {
        add_one_tag(add_tags(a, add.drop_last(), global), add.last(), global)
    }
}

/// Adding tags changes nothing but the two tag lists.
pub proof fn lemma_add_tags_only_tags(a: AccountView, add: Seq<String>, global: Seq<GlobalTag>)
    ensures
        ({
            let t = add_tags(a, add, global);
            t == AccountView { tags: t.tags, tag_colors: t.tag_colors, ..a }
        }),
    decreases add.len(),
{
    if add.len() > 0 {
        lemma_add_tags_only_tags(a, add.drop_last(), global);
    }
}

/// `a` without any tag whose name is in `remove`.
pub open spec fn remove_tags(a: AccountView, remove: Seq<String>) -> AccountView {
    AccountView {
        tags: a.tags.filter(|t: String| !has_text(remove, t@)),
        tag_colors: a.tag_colors.filter(|t: TagWithColor| !has_text(remove, t.name@)),
        ..a
    }
}

/// `a` after adding the tags of `add` and then removing those of `remove`.
pub open spec fn edit_tags(a: AccountView, add: Seq<String>, remove: Seq<String>, global: Seq<GlobalTag>) -> AccountView {
    remove_tags(add_tags(a, add, global), remove)
}

/// The accounts after editing the tags of each account that a text of `ids`
/// names, in turn, with the numbers of texts that did and did not name one.
pub open spec fn batch_tags(
    s: Seq<AccountView>,
    ids: Seq<String>,
    add: Seq<String>,
    remove: Seq<String>,
    global: Seq<GlobalTag>,
) -> (Seq<AccountView>, nat, nat)
    decreases ids.len(),
{
    if ids.len() == 0 {
        (s, 0, 0)
    } else {
        let (t, ok, failed) = batch_tags(s, ids.drop_last(), add, remove, global);
        match uuid_parse(ids.last()@) {
            Some(k) => if has_id(t, k) {
                (
                    t.update(index_of(t, k), edit_tags(t[index_of(t, k)], add, remove, global)),
                    ok + 1,
                    failed,
                )
            } else {
                (t, ok, failed + 1)
            },
            None => (t, ok, failed + 1),
        }
    }
}

/// The accounts after giving each account that a text of `ids` names the
/// position of that text as its sort order; a later text wins.
pub open spec fn ordered(s: Seq<AccountView>, ids: Seq<String>) -> Seq<AccountView>
    decreases ids.len(),
{
    if ids.len() == 0 {
        s
    } else {
        let t = ordered(s, ids.drop_last());
        match uuid_parse(ids.last()@) {
            Some(k) => if has_id(t, k) {
                t.update(
                    index_of(t, k),
                    AccountView { sort_order: (ids.len() - 1) as i32, ..t[index_of(t, k)] },
                )
            } else {
                t
            },
            None => t,
        }
    }
}

/// The accounts after merging `a` in, one by one: an account whose e-mail address
/// or identifier is taken is skipped; with the numbers added and skipped.
pub open spec fn merge_accounts(s: Seq<AccountView>, a: Seq<AccountView>) -> (Seq<AccountView>, nat, nat)
    decreases a.len(),
{
    if a.len() == 0 {
        (s, 0, 0)
    } else {
        let (t, added, skipped) = merge_accounts(s, a.drop_last());
        if !has_email(t, a.last().email@) && !has_id(t, a.last().id) {
            (t.push(a.last()), added + 1, skipped)
        } else {
            (t, added, skipped + 1)
        }
    }
}

/// The groups after adding each group of `g` that is missing, in turn; with the
/// number added.
pub open spec fn merge_groups(groups: Seq<String>, g: Seq<String>) -> (Seq<String>, nat)
    decreases g.len(),
{
    if g.len() == 0 {
        (groups, 0)
    } else {
        let (t, n) = merge_groups(groups, g.drop_last());
        if has_text(t, g.last()@) {
            (t, n)
        } else {
            (t.push(g.last()), n + 1)
        }
    }
}

/// Whether `c` holds a coloured tag named `name`.
fn colors_contain(c: &Vec<TagWithColor>, name: &str) -> (r: bool)
    ensures
        r == has_color(c@, name@),
{
    let mut i: usize = 0;
    while i < c.len()
        invariant
            i <= c.len(),
            forall|j: int| 0 <= j < i ==> c@[j].name@ != name@,
        decreases c.len() - i,
    {
        if text_eq(c[i].name.as_str(), name) {
            return true;
        }
        i = i + 1;
    }
    false
}

/// Position of the first global tag named `name`.
fn find_global(v: &Vec<GlobalTag>, name: &str) -> (r: Option<usize>)
    ensures
        r matches Some(i) ==> i < v@.len() && i == first_tag(v@, name@),
        r is Some <==> has_tag(v@, name@),
{
    let mut i: usize = 0;
    while i < v.len()
        invariant
            i <= v.len(),
            forall|j: int| 0 <= j < i ==> v@[j].name@ != name@,
        decreases v.len() - i,
    {
        if text_eq(v[i].name.as_str(), name) {
            proof {
                let k = first_tag(v@, name@);
                assert(0 <= i < v@.len() && v@[i as int].name@ == name@ && forall|j: int|
                    0 <= j < i ==> v@[j].name@ != name@);
                assert(k == i) by {
                    if k < i {
                    } else if k > i {
                    }
                }
            }
            return Some(i);
        }
        i = i + 1;
    }
    None
}

/// `account` with the tags of `add` added and those of `remove` removed.
pub fn edit_account_tags(account: Account, add: &Vec<String>, remove: &Vec<String>, global: &Vec<GlobalTag>) -> (r: Account)
    ensures
        r@ == edit_tags(account@, add@, remove@, global@),
{
    let mut a = account;
    let ghost start = a@;
    let mut i: usize = 0;
    while i < add.len()
        invariant
            i <= add.len(),
            a@ == add_tags(start, add@.take(i as int), global@),
        decreases add.len() - i,
    {
        proof {
            assert(add@.take(i + 1).drop_last() =~= add@.take(i as int));
        }
        let name = &add[i];
        if !contains_text(&a.tags, name.as_str()) {
            let ghost before = a@;
            a.tags.push(name.clone());
            match find_global(global, name.as_str()) {
                Some(g) => {
                    if !colors_contain(&a.tag_colors, name.as_str()) {
                        a.tag_colors.push(
                            TagWithColor { name: name.clone(), color: global[g].color.clone() },
                        );
                    }
                },
                None => {},
            }
            proof {
                assert(a@ =~= add_one_tag(before, add@[i as int], global@));
            }
        }
        i = i + 1;
    }
    assert(add@.take(add.len() as int) =~= add@);
    let ghost added = a@;
    let mut kept_tags: Vec<String> = Vec::new();
    let mut j: usize = 0;
    while j < a.tags.len()
        invariant
            j <= a.tags.len(),
            a@ == added,
            kept_tags@ == added.tags.take(j as int).filter(|t: String| !has_text(remove@, t@)),
        decreases a.tags.len() - j,
    {
        proof {
            reveal_with_fuel(Seq::<_>::filter, 1);
            assert(added.tags.take(j + 1).drop_last() =~= added.tags.take(j as int));
        }
        if !contains_text(remove, a.tags[j].as_str()) {
            kept_tags.push(a.tags[j].clone());
        }
        j = j + 1;
    }
    assert(added.tags.take(a.tags.len() as int) =~= added.tags);
    let mut kept_colors: Vec<TagWithColor> = Vec::new();
    let mut m: usize = 0;
    while m < a.tag_colors.len()
        invariant
            m <= a.tag_colors.len(),
            a@ == added,
            kept_colors@ == added.tag_colors.take(m as int).filter(
                |t: TagWithColor| !has_text(remove@, t.name@),
            ),
        decreases a.tag_colors.len() - m,
    {
        proof {
            reveal_with_fuel(Seq::<_>::filter, 1);
            assert(added.tag_colors.take(m + 1).drop_last() =~= added.tag_colors.take(m as int));
        }
        if !contains_text(remove, a.tag_colors[m].name.as_str()) {
            kept_colors.push(
                TagWithColor {
                    name: a.tag_colors[m].name.clone(),
                    color: a.tag_colors[m].color.clone(),
                },
            );
        }
        m = m + 1;
    }
    assert(added.tag_colors.take(a.tag_colors.len() as int) =~= added.tag_colors);
    a.tags = kept_tags;
    a.tag_colors = kept_colors;
    a
}

impl DataStore {
    /// For each text of `account_ids` that parses as the UUID of a stored account,
    /// adds the tags of `add_tags` (with their global colours) and removes those of
    /// `remove_tags`. Gives how many texts named an account and how many did not.
    pub fn batch_update_account_tags(&mut self, account_ids: &Vec<String>, add_tags: &Vec<String>, remove_tags: &Vec<String>) -> (r: (usize, usize))
        requires
            old(self).wf(),
        ensures
            final(self).wf(),
            final(self).logs == old(self).logs,
            final(self).config == old(self).config,
            (final(self).account_store@, r.0 as nat, r.1 as nat) == batch_tags(
                old(self).account_store@,
                account_ids@,
                add_tags@,
                remove_tags@,
                old(self).config.tags@,
            ),
    {
        let global = copy_global_tags(&self.config.tags);
        let ghost start = self.account_store@;
        let mut ok: usize = 0;
        let mut failed: usize = 0;
        let mut i: usize = 0;
        while i < account_ids.len()
            invariant
                i <= account_ids.len(),
                self.wf(),
                self.logs == old(self).logs,
                self.config == old(self).config,
                global@ == self.config.tags@,
                ok + failed == i,
                (self.account_store@, ok as nat, failed as nat) == batch_tags(
                    start,
                    account_ids@.take(i as int),
                    add_tags@,
                    remove_tags@,
                    global@,
                ),
            decreases account_ids.len() - i,
        {
            proof {
                assert(account_ids@.take(i + 1).drop_last() =~= account_ids@.take(i as int));
                assert(account_ids@.take(i + 1).last() == account_ids@[i as int]);
            }
            match parse_uuid(account_ids[i].as_str()) {
                Some(k) => {
                    match self.account_store.get_account(k) {
                        Ok(a) => {
                            let ghost t = self.account_store@;
                            let edited = edit_account_tags(a, add_tags, remove_tags, &global);
                            proof {
                                lemma_add_tags_only_tags(a@, add_tags@, global@);
                            }
                            assert(edited.id == k);
                            self.account_store.upsert_account(edited);
                            assert(self.account_store@ == t.update(index_of(t, k), edit_tags(t[index_of(t, k)], add_tags@, remove_tags@, global@)));
                            ok = ok + 1;
                        },
                        Err(_) => {
                            failed = failed + 1;
                        },
                    }
                },
                None => {
                    failed = failed + 1;
                },
            }
            i = i + 1;
        }
        assert(account_ids@.take(account_ids.len() as int) =~= account_ids@);
        (ok, failed)
    }

    /// Gives each account that a text of `account_ids` names (as a UUID) the position
    /// of that text as its sort order.
    pub fn update_accounts_order(&mut self, account_ids: &Vec<String>)
        requires
            old(self).wf(),
        ensures
            final(self).wf(),
            final(self).logs == old(self).logs,
            final(self).config == old(self).config,
            final(self).account_store@ == ordered(old(self).account_store@, account_ids@),
    {
        let ghost start = self.account_store@;
        let mut i: usize = 0;
        while i < account_ids.len()
            invariant
                i <= account_ids.len(),
                self.wf(),
                self.logs == old(self).logs,
                self.config == old(self).config,
                self.account_store@ == ordered(start, account_ids@.take(i as int)),
            decreases account_ids.len() - i,
        {
            proof {
                assert(account_ids@.take(i + 1).drop_last() =~= account_ids@.take(i as int));
                assert(account_ids@.take(i + 1).last() == account_ids@[i as int]);
                assert(account_ids@.take(i + 1).len() - 1 == i);
            }
            match parse_uuid(account_ids[i].as_str()) {
                Some(k) => {
                    match self.account_store.get_account(k) {
                        Ok(a) => {
                            let mut a = a;
                            a.sort_order = #[verifier::truncate] (i as i32);
                            self.account_store.upsert_account(a);
                        },
                        Err(_) => {},
                    }
                },
                None => {},
            }
            i = i + 1;
        }
        assert(account_ids@.take(account_ids.len() as int) =~= account_ids@);
    }

    /// Imports accounts and groups. With `merge`, each imported account is added
    /// unless its e-mail address or identifier is taken (then it is skipped);
    /// without, the stored accounts are replaced by the imported ones (any repeated
    /// identifier after the first is dropped) and all count as added. Each imported
    /// group that is missing is added.
    pub fn import_data(&mut self, accounts: Option<Vec<Account>>, groups: Option<Vec<String>>, merge: bool) -> (r: ImportResult)
        requires
            old(self).wf(),
        ensures
            final(self).wf(),
            final(self).logs == old(self).logs,
            final(self).config.tags == old(self).config.tags,
            final(self).config.settings == old(self).config.settings,
            final(self).config.accounts == old(self).config.accounts,
            final(self).config.logs == old(self).config.logs,
            accounts is None ==> final(self).account_store@ == old(self).account_store@
                && r.accounts_added == 0 && r.accounts_skipped == 0,
            accounts matches Some(a) ==> if merge {
                (final(self).account_store@, r.accounts_added as nat, r.accounts_skipped as nat)
                    == merge_accounts(old(self).account_store@, account_views(a@))
            } else {
                &&& final(self).account_store@ == insert_all(Seq::empty(), account_views(a@)).0
                &&& r.accounts_added == a@.len()
                &&& r.accounts_skipped == 0
            },
            groups is None ==> final(self).config.groups == old(self).config.groups
                && r.groups_added == 0,
            groups matches Some(g) ==> (final(self).config.groups@, r.groups_added as nat)
                == merge_groups(old(self).config.groups@, g@),
    {
        let mut result = ImportResult { accounts_added: 0, accounts_skipped: 0, groups_added: 0 };
        match accounts {
            Some(list) => {
                if merge {
                    let ghost start = self.account_store@;
                    let ghost views = account_views(list@);
                    let mut i: usize = 0;
                    while i < list.len()
                        invariant
                            i <= list.len(),
                            self.wf(),
                            self.logs == old(self).logs,
                            self.config == old(self).config,
                            views == account_views(list@),
                            result.accounts_added + result.accounts_skipped == i,
                            result.groups_added == 0,
                            (self.account_store@, result.accounts_added as nat, result.accounts_skipped as nat)
                                == merge_accounts(start, views.take(i as int)),
                        decreases list.len() - i,
                    {
                        proof {
                            assert(views.take(i + 1).drop_last() =~= views.take(i as int));
                            assert(views[i as int] == list@[i as int]@);
                        }
                        let a = list[i].copied();
                        if !self.account_store.email_exists(a.email.as_str()) {
                            match self.account_store.insert_account(a) {
                                Ok(()) => {
                                    result.accounts_added = result.accounts_added + 1;
                                },
                                Err(_) => {
                                    result.accounts_skipped = result.accounts_skipped + 1;
                                },
                            }
                        } else {
                            result.accounts_skipped = result.accounts_skipped + 1;
                        }
                        i = i + 1;
                    }
                    assert(views.take(list.len() as int) =~= views);
                } else {
                    let mut fresh = AccountStore::new();
                    fresh.bulk_insert(&list);
                    self.account_store = fresh;
                    result.accounts_added = list.len();
                }
            },
            None => {},
        }
        let ghost stored = self.account_store@;
        let ghost added0 = result.accounts_added;
        let ghost skipped0 = result.accounts_skipped;
        match groups {
            Some(g) => {
                let ghost start = self.config.groups@;
                let mut i: usize = 0;
                while i < g.len()
                    invariant
                        i <= g.len(),
                        self.wf(),
                        self.logs == old(self).logs,
                        self.account_store@ == stored,
                        result.accounts_added == added0,
                        result.accounts_skipped == skipped0,
                        self.config.tags == old(self).config.tags,
                        self.config.settings == old(self).config.settings,
                        self.config.accounts == old(self).config.accounts,
                        self.config.logs == old(self).config.logs,
                        result.groups_added <= i,
                        (self.config.groups@, result.groups_added as nat) == merge_groups(
                            start,
                            g@.take(i as int),
                        ),
                    decreases g.len() - i,
                {
                    proof {
                        assert(g@.take(i + 1).drop_last() =~= g@.take(i as int));
                    }
                    if !contains_text(&self.config.groups, g[i].as_str()) {
                        self.config.groups.push(g[i].clone());
                        result.groups_added = result.groups_added + 1;
                    }
                    i = i + 1;
                }
                assert(g@.take(g.len() as int) =~= g@);
            },
            None => {},
        }
        result
    }
}

} // verus!
