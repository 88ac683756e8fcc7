//! Which backup directories are listed, and which are pruned.
use vstd::prelude::*;
use crate::sorting::{is_permutation, key_views, stable_order, stably_sorted, KeySpec, SortKey};
use crate::text::has_prefix;
use crate::time::UtcTime;

verus! {

/// A backup as the backup list shows it.
#[derive(Debug)]
pub struct BackupInfo {
    pub name: String,
    pub path: String,
    pub size: u64,
    pub created_at: Option<i64>,
}

/// An entry of the backup directory, as read from disk: its name, path, whether it
/// is a directory, its total size, and its modification time in Unix seconds.
#[derive(Debug)]
pub struct BackupEntry {
    pub name: String,
    pub path: String,
    pub is_dir: bool,
    pub size: u64,
    pub created_at: Option<i64>,
}

/// An entry of the backup directory considered for pruning: its name, whether it
/// is a directory, and its modification time.
#[derive(Debug)]
pub struct BackupDir {
    pub name: String,
    pub is_dir: bool,
    pub modified: Option<UtcTime>,
}

/// Names of backup directories start with `backup_`.
pub open spec fn is_backup_name(name: Seq<char>) -> bool {
    "backup_"@.is_prefix_of(name)
}

/// Whether `name` is the name of a backup directory.
pub fn backup_name(name: &str) -> (b: bool)
    ensures
        b == is_backup_name(name@),
{
    has_prefix(name, "backup_")
}

/// An entry is listed when it is a directory with a backup name.
pub open spec fn listed(e: BackupEntry) -> bool {
    e.is_dir && is_backup_name(e.name@)
}

/// An entry may be pruned when it is a directory with a backup name.
pub open spec fn prunable(d: BackupDir) -> bool {
    d.is_dir && is_backup_name(d.name@)
}

/// Newest first: present times in decreasing order, absent ones last.
pub open spec fn newest_first_key(t: Option<i64>) -> KeySpec {
    match t {
        Some(x) => KeySpec { text: Seq::empty(), a: 0, b: -(x as int), c: 0 },
        None => KeySpec { text: Seq::empty(), a: 1, b: 0, c: 0 },
    }
}

/// Newest first: present times in decreasing order, absent ones last.
pub open spec fn newest_time_first_key(t: Option<UtcTime>) -> KeySpec {
    match t {
        Some(x) => KeySpec { text: Seq::empty(), a: 0, b: -(x.secs as int), c: -(x.nanos as int) },
        None => KeySpec { text: Seq::empty(), a: 1, b: 0, c: 0 },
    }
}

/// The entry shown for a listed backup.
pub open spec fn info_of(e: BackupEntry) -> BackupInfo {
    BackupInfo { name: e.name, path: e.path, size: e.size, created_at: e.created_at }
}

/// The elements of `s` at the positions `p`, in that order.
pub open spec fn pick<T>(s: Seq<T>, p: Seq<usize>) -> Seq<T> {
    Seq::new(p.len(), |k: int| s[p[k] as int])
}

/// The entries of `entries` that are listed, in order.
pub open spec fn listed_entries(entries: Seq<BackupEntry>) -> Seq<BackupEntry> {
    entries.filter(|e: BackupEntry| listed(e))
}

/// `r` lists the listed entries of `entries` as backups, newest first, entries
/// with equal times keeping their order: each shows the name, path, size and time
/// of the entry at its place.
#[verifier::opaque]
pub open spec fn backup_listing(entries: Seq<BackupEntry>, r: Seq<BackupInfo>) -> bool {
    exists|p: Seq<usize>|
        {
            &&& #[trigger] is_permutation(p, listed_entries(entries).len())
            &&& stably_sorted(
                listed_entries(entries).map_values(|e: BackupEntry| newest_first_key(e.created_at)),
                p,
            )
            &&& r == pick(listed_entries(entries), p).map_values(|e: BackupEntry| info_of(e))
            &&& r.len() == p.len()
            &&& forall|k: int|
                0 <= k < r.len() ==> {
                    let e = listed_entries(entries)[p[k] as int];
                    &&& (#[trigger] r[k]).name == e.name
                    &&& r[k].path == e.path
                    &&& r[k].size == e.size
                    &&& r[k].created_at == e.created_at
                }
        }
}

/// The listed entries of a backup directory, as backups, newest first; entries
/// with equal times keep their order.
pub fn list_backups(entries: Vec<BackupEntry>) -> (r: Vec<BackupInfo>)
    ensures
        backup_listing(entries@, r@),
{
    let ghost c = entries@.filter(|e: BackupEntry| listed(e));
    let mut cands: Vec<BackupEntry> = Vec::new();
    let mut entries = entries;
    let ghost all = entries@;
    let mut i: usize = 0;
    while i < entries.len()
        invariant
            i <= entries.len(),
            entries@ == all,
            c == all.filter(|e: BackupEntry| listed(e)),
            cands@ == all.take(i as int).filter(|e: BackupEntry| listed(e)),
        decreases entries.len() - i,
    {
        proof {
            reveal_with_fuel(Seq::<_>::filter, 1);
            assert(all.take(i + 1).drop_last() =~= all.take(i as int));
        }
        if entries[i].is_dir && backup_name(entries[i].name.as_str()) {
            let e = BackupEntry {
                name: entries[i].name.clone(),
                path: entries[i].path.clone(),
                is_dir: entries[i].is_dir,
                size: entries[i].size,
                created_at: entries[i].created_at,
            };
            cands.push(e);
        }
        i = i + 1;
    }
    assert(all.take(all.len() as int) =~= all);
    let mut keys: Vec<SortKey> = Vec::new();
    let mut j: usize = 0;
    while j < cands.len()
        invariant
            j <= cands.len(),
            cands@ == c,
            key_views(keys@) == c.map_values(|e: BackupEntry| newest_first_key(e.created_at)).take(
                j as int,
            ),
        decreases cands.len() - j,
    {
        let k = match cands[j].created_at {
            Some(x) => SortKey { text: String::new(), a: 0, b: -(x as i128), c: 0 },
            None => SortKey { text: String::new(), a: 1, b: 0, c: 0 },
        };
        let ghost kk = keys@;
        keys.push(k);
        proof {
            crate::sorting::lemma_key_views_push(kk, k);
            assert(key_views(keys@) =~= c.map_values(
                |e: BackupEntry| newest_first_key(e.created_at),
            ).take(j + 1));
        }
        j = j + 1;
    }
    proof {
        assert(c.map_values(|e: BackupEntry| newest_first_key(e.created_at)).take(c.len() as int)
            =~= c.map_values(|e: BackupEntry| newest_first_key(e.created_at)));
    }
    let p = stable_order(&keys);
    let mut r: Vec<BackupInfo> = Vec::new();
    let mut k: usize = 0;
    while k < p.len()
        invariant
            k <= p.len(),
            cands@ == c,
            is_permutation(p@, c.len()),
            r@ == pick(c, p@).map_values(|e: BackupEntry| info_of(e)).take(k as int),
        decreases p.len() - k,
    {
        let q = p[k];
        let info = BackupInfo {
            name: cands[q].name.clone(),
            path: cands[q].path.clone(),
            size: cands[q].size,
            created_at: cands[q].created_at,
        };
        r.push(info);
        assert(r@ =~= pick(c, p@).map_values(|e: BackupEntry| info_of(e)).take(k + 1));
        k = k + 1;
    }
    assert(pick(c, p@).map_values(|e: BackupEntry| info_of(e)).take(p.len() as int) =~= pick(
        c,
        p@,
    ).map_values(|e: BackupEntry| info_of(e)));
    assert(c == listed_entries(entries@));
    assert(is_permutation(p@, listed_entries(entries@).len()));
    assert(stably_sorted(
        listed_entries(entries@).map_values(|e: BackupEntry| newest_first_key(e.created_at)),
        p@,
    ));
    proof {
        reveal(backup_listing);
    }
    r
}

/// The backup directories to delete so that the newest `keep` remain: the prunable
/// entries sorted newest first (equal times keep their order), past the first
/// `keep`. Gives their positions in `dirs`.
pub fn stale_backups(dirs: &Vec<BackupDir>, keep: usize) -> (r: Vec<usize>)
    ensures
        exists|c: Seq<usize>, p: Seq<usize>|
            {
                &&& #[trigger] is_permutation(p, c.len())
                &&& c == prunable_positions(dirs@)
                &&& stably_sorted(
                    c.map_values(|i: usize| newest_time_first_key(dirs@[i as int].modified)),
                    p,
                )
                &&& r@ == pick(c, p).skip(if keep < c.len() { keep as int } else { c.len() as int })
            },
{
    let mut c: Vec<usize> = Vec::new();
    let mut i: usize = 0;
    while i < dirs.len()
        invariant
            i <= dirs.len(),
            c@ == prunable_positions(dirs@.take(i as int)),
            forall|m: int| 0 <= m < c@.len() ==> c@[m] < i,
        decreases dirs.len() - i,
    {
        proof {
            assert(dirs@.take(i + 1).drop_last() =~= dirs@.take(i as int));
            lemma_prunable_positions_take(dirs@, i as int);
        }
        if dirs[i].is_dir && backup_name(dirs[i].name.as_str()) {
            c.push(i);
        }
        i = i + 1;
    }
    assert(dirs@.take(dirs.len() as int) =~= dirs@);
    let ghost keyseq = c@.map_values(|i: usize| newest_time_first_key(dirs@[i as int].modified));
    let mut keys: Vec<SortKey> = Vec::new();
    let mut j: usize = 0;
    while j < c.len()
        invariant
            j <= c.len(),
            forall|m: int| 0 <= m < c@.len() ==> c@[m] < dirs@.len(),
            keyseq == c@.map_values(|i: usize| newest_time_first_key(dirs@[i as int].modified)),
            key_views(keys@) == keyseq.take(j as int),
        decreases c.len() - j,
    {
        let k = match dirs[c[j]].modified {
            Some(t) => SortKey {
                text: String::new(),
                a: 0,
                b: -(t.secs as i128),
                c: -(t.nanos as i128),
            },
            None => SortKey { text: String::new(), a: 1, b: 0, c: 0 },
        };
        let ghost kk = keys@;
        keys.push(k);
        proof {
            crate::sorting::lemma_key_views_push(kk, k);
            assert(key_views(keys@) =~= keyseq.take(j + 1));
        }
        j = j + 1;
    }
    assert(keyseq.take(c.len() as int) =~= keyseq);
    let p = stable_order(&keys);
    let start = if keep < c.len() {
        keep
    } else {
        c.len()
    };
    let mut r: Vec<usize> = Vec::new();
    let mut k: usize = start;
    while k < p.len()
        invariant
            start <= k <= p.len(),
            p.len() == c.len(),
            is_permutation(p@, c@.len()),
            r@ == pick(c@, p@).subrange(start as int, k as int),
        decreases p.len() - k,
    {
        r.push(c[p[k]]);
        assert(r@ =~= pick(c@, p@).subrange(start as int, k + 1));
        k = k + 1;
    }
    assert(pick(c@, p@).skip(start as int) =~= pick(c@, p@).subrange(start as int, p.len() as int));
    r
}

/// The positions of the prunable entries of `dirs`, in order.
pub open spec fn prunable_positions(dirs: Seq<BackupDir>) -> Seq<usize>
    decreases dirs.len(),
{
    if dirs.len() == 0 {
        Seq::empty()
    } else {
        let c = prunable_positions(dirs.drop_last());
        if prunable(dirs.last()) {
            c.push((dirs.len() - 1) as usize)
        } else {
            c
        }
    }
}

proof fn lemma_prunable_positions_take(dirs: Seq<BackupDir>, i: int)
    requires
        0 <= i < dirs.len(),
    ensures
        prunable_positions(dirs.take(i + 1)) == if prunable(dirs[i]) {
            prunable_positions(dirs.take(i)).push(i as usize)
        } else {
            prunable_positions(dirs.take(i))
        },
{
    assert(dirs.take(i + 1).drop_last() =~= dirs.take(i));
    assert(dirs.take(i + 1).last() == dirs[i]);
}

} // verus!
