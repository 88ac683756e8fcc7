//! Stable sorting by keys made of a text and three integers, and the account
//! orderings of the account list.
use vstd::prelude::*;
use vstd::string::StrSliceExecFns;

verus! {

/// A sort key: a text, compared first (by character codes, as `String`'s order
/// does), then three integers in turn.
pub struct SortKey {
    pub text: String,
    pub a: i128,
    pub b: i128,
    pub c: i128,
}

/// A sort key taken by its text's characters and its integers.
pub struct KeySpec {
    pub text: Seq<char>,
    pub a: int,
    pub b: int,
    pub c: int,
}

impl View for SortKey {
    type V = KeySpec;

    open spec fn view(&self) -> KeySpec {
        KeySpec { text: self.text@, a: self.a as int, b: self.b as int, c: self.c as int }
    }
}

/// The views of a sequence of keys.
pub open spec fn key_views(s: Seq<SortKey>) -> Seq<KeySpec> {
    s.map_values(|k: SortKey| k@)
}

/// Viewing a sequence with one more key appends that key's view.
pub proof fn lemma_key_views_push(s: Seq<SortKey>, k: SortKey)
    ensures
        key_views(s.push(k)) == key_views(s).push(k@),
{
    assert(key_views(s.push(k)) =~= key_views(s).push(k@));
}

/// Text order: `x` comes before `y` when, at the first position where they differ,
/// `x`'s character has the smaller code, or when `x` is a proper prefix of `y`.
pub open spec fn text_lt(x: Seq<char>, y: Seq<char>) -> bool {
    exists|k: int|
        #![trigger x.take(k), y.take(k)]
        0 <= k <= x.len() && k <= y.len() && x.take(k) == y.take(k) && ((k == x.len() && k
            < y.len()) || (k < x.len() && k < y.len() && (x[k] as int) < (y[k] as int)))
}

/// Key order: by text, then `a`, then `b`, then `c`.
pub open spec fn key_lt(x: KeySpec, y: KeySpec) -> bool {
    ||| text_lt(x.text, y.text)
    ||| (x.text == y.text && (x.a < y.a || (x.a == y.a && (x.b < y.b || (x.b == y.b && x.c
        < y.c)))))
}

/// Order of list positions by their keys, ties broken by position: what a stable
/// sort yields.
pub open spec fn ranked_before(keys: Seq<KeySpec>, i: int, j: int) -> bool {
    key_lt(keys[i], keys[j]) || (keys[i].text == keys[j].text && keys[i].a == keys[j].a
        && keys[i].b == keys[j].b && keys[i].c == keys[j].c && i < j)
}

/// `p` lists each of the positions `0..n` exactly once.
pub open spec fn is_permutation(p: Seq<usize>, n: nat) -> bool {
    &&& p.len() == n
    &&& forall|k: int| 0 <= k < p.len() ==> p[k] < n
    &&& forall|k: int, m: int| 0 <= k < p.len() && 0 <= m < p.len() && k != m ==> p[k] != p[m]
}

/// The positions listed in `p` come in the order of a stable sort of `keys`.
pub open spec fn stably_sorted(keys: Seq<KeySpec>, p: Seq<usize>) -> bool {
    forall|k: int| 0 <= k < p.len() - 1 ==> ranked_before(keys, #[trigger] p[k] as int, p[k + 1] as int)
}

/// Whether `x` comes before `y` in text order.
pub fn text_less(x: &str, y: &str) -> (r: bool)
    ensures
        r == text_lt(x@, y@),
{
    let n = x.unicode_len();
    let m = y.unicode_len();
    let mut k: usize = 0;
    while k < n && k < m && x.get_char(k) == y.get_char(k)
        invariant
            n == x@.len(),
            m == y@.len(),
            k <= n,
            k <= m,
            x@.take(k as int) == y@.take(k as int),
        decreases n - k,
    {
        assert(x@.take(k + 1) =~= x@.take(k as int).push(x@[k as int]));
        assert(y@.take(k + 1) =~= y@.take(k as int).push(y@[k as int]));
        k = k + 1;
    }
    let r = if k < n && k < m {
        let cx = x.get_char(k);
        let cy = y.get_char(k);
        cx < cy
    } else {
        k == n && k < m
    };
    proof {
        if r {
            assert(x@.take(k as int) == y@.take(k as int));
        } else {
            assert forall|j: int|
                0 <= j <= x@.len() && j <= y@.len() && #[trigger] x@.take(j) == #[trigger] y@.take(j)
                implies !((j == x@.len() && j < y@.len()) || (j < x@.len() && j < y@.len() && (
                x@[j] as int) < (y@[j] as int))) by {
                if j < k {
                    assert(x@.take(k as int)[j] == y@.take(k as int)[j]);
                } else if j > k {
                    assert(x@.take(j)[k as int] == y@.take(j)[k as int]);
                }
            }
        }
    }
    r
}

/// Two different texts are ordered one way or the other.
proof fn lemma_text_total(x: Seq<char>, y: Seq<char>)
    requires
        x != y,
    ensures
        text_lt(x, y) || text_lt(y, x),
{
    let n = if x.len() < y.len() {
        x.len()
    } else {
        y.len()
    };
    if forall|j: int| 0 <= j < n ==> x[j] == y[j] {
        assert(x.take(n as int) =~= y.take(n as int));
        if x.len() < y.len() {
            assert(x.take(n as int) == y.take(n as int));
        } else if y.len() < x.len() {
            assert(y.take(n as int) == x.take(n as int));
        } else {
            assert(x =~= y);
        }
    } else {
        let j0 = choose|j: int| 0 <= j < n && x[j] != y[j];
        let k = lemma_first_difference(x, y, j0);
        assert(x.take(k) == y.take(k));
        assert(y.take(k) == x.take(k));
        assert((x[k] as int) != (y[k] as int));
    }
}

/// The first position where two texts differ, given some position where they do.
proof fn lemma_first_difference(x: Seq<char>, y: Seq<char>, j0: int) -> (k: int)
    requires
        0 <= j0 < x.len(),
        j0 < y.len(),
        x[j0] != y[j0],
    ensures
        0 <= k <= j0,
        x[k] != y[k],
        x.take(k) =~= y.take(k),
    decreases j0,
{
    if forall|j: int| 0 <= j < j0 ==> x[j] == y[j] {
        assert(x.take(j0) =~= y.take(j0));
        j0
    } else {
        let j1 = choose|j: int| 0 <= j < j0 && x[j] != y[j];
        lemma_first_difference(x, y, j1)
    }
}

/// Different keys, or equal keys at different positions, are ranked one way or
/// the other.
proof fn lemma_ranked_total(keys: Seq<KeySpec>, i: int, j: int)
    requires
        0 <= i < keys.len(),
        0 <= j < keys.len(),
        i != j,
    ensures
        ranked_before(keys, i, j) || ranked_before(keys, j, i),
{
    if keys[i].text != keys[j].text {
        lemma_text_total(keys[i].text, keys[j].text);
    }
}

/// Text order is transitive.
pub proof fn lemma_text_lt_transitive(x: Seq<char>, y: Seq<char>, z: Seq<char>)
    requires
        text_lt(x, y),
        text_lt(y, z),
    ensures
        text_lt(x, z),
{
    let k1 = choose|k: int|
        #![trigger x.take(k), y.take(k)]
        0 <= k <= x.len() && k <= y.len() && x.take(k) == y.take(k) && ((k == x.len() && k
            < y.len()) || (k < x.len() && k < y.len() && (x[k] as int) < (y[k] as int)));
    let k2 = choose|k: int|
        #![trigger y.take(k), z.take(k)]
        0 <= k <= y.len() && k <= z.len() && y.take(k) == z.take(k) && ((k == y.len() && k
            < z.len()) || (k < y.len() && k < z.len() && (y[k] as int) < (z[k] as int)));
    if k1 < k2 {
        assert(y.take(k2)[k1] == z.take(k2)[k1]);
        assert(x.take(k1) =~= z.take(k1)) by {
            assert forall|j: int| 0 <= j < k1 implies x.take(k1)[j] == z.take(k1)[j] by {
                assert(x.take(k1)[j] == y.take(k1)[j]);
                assert(y.take(k2)[j] == z.take(k2)[j]);
            }
        }
    } else if k2 < k1 {
        assert(x.take(k1)[k2] == y.take(k1)[k2]);
        assert(x.take(k2) =~= z.take(k2)) by {
            assert forall|j: int| 0 <= j < k2 implies x.take(k2)[j] == z.take(k2)[j] by {
                assert(x.take(k1)[j] == y.take(k1)[j]);
                assert(y.take(k2)[j] == z.take(k2)[j]);
            }
        }
    } else {
        assert(x.take(k1) =~= z.take(k1)) by {
            assert forall|j: int| 0 <= j < k1 implies x.take(k1)[j] == z.take(k1)[j] by {
                assert(x.take(k1)[j] == y.take(k1)[j]);
                assert(y.take(k2)[j] == z.take(k2)[j]);
            }
        }
    }
}

/// Text order is asymmetric.
pub proof fn lemma_text_lt_asymmetric(x: Seq<char>, y: Seq<char>)
    requires
        text_lt(x, y),
    ensures
        !text_lt(y, x),
{
    if text_lt(y, x) {
        let k1 = choose|k: int|
            #![trigger x.take(k), y.take(k)]
            0 <= k <= x.len() && k <= y.len() && x.take(k) == y.take(k) && ((k == x.len() && k
                < y.len()) || (k < x.len() && k < y.len() && (x[k] as int) < (y[k] as int)));
        let k2 = choose|k: int|
            #![trigger y.take(k), x.take(k)]
            0 <= k <= y.len() && k <= x.len() && y.take(k) == x.take(k) && ((k == y.len() && k
                < x.len()) || (k < y.len() && k < x.len() && (y[k] as int) < (x[k] as int)));
        if k1 < k2 {
            assert(y.take(k2)[k1] == x.take(k2)[k1]);
        } else if k2 < k1 {
            assert(x.take(k1)[k2] == y.take(k1)[k2]);
        }
    }
}

/// The ranking of positions by key, ties broken by position, is transitive.
pub proof fn lemma_ranked_transitive(keys: Seq<KeySpec>, i: int, j: int, k: int)
    requires
        ranked_before(keys, i, j),
        ranked_before(keys, j, k),
    ensures
        ranked_before(keys, i, k),
{
    if text_lt(keys[i].text, keys[j].text) && text_lt(keys[j].text, keys[k].text) {
        lemma_text_lt_transitive(keys[i].text, keys[j].text, keys[k].text);
    }
}

/// The ranking of positions is asymmetric.
pub proof fn lemma_ranked_asymmetric(keys: Seq<KeySpec>, i: int, j: int)
    requires
        ranked_before(keys, i, j),
    ensures
        !ranked_before(keys, j, i),
{
    if text_lt(keys[i].text, keys[j].text) {
        lemma_text_lt_asymmetric(keys[i].text, keys[j].text);
    }
    if text_lt(keys[j].text, keys[i].text) {
        lemma_text_lt_asymmetric(keys[j].text, keys[i].text);
    }
}

/// In a stable order every earlier position ranks before every later one.
pub proof fn lemma_sorted_all_pairs(keys: Seq<KeySpec>, p: Seq<usize>, a: int, b: int)
    requires
        stably_sorted(keys, p),
        0 <= a < b < p.len(),
    ensures
        ranked_before(keys, p[a] as int, p[b] as int),
    decreases b - a,
{
    if b > a + 1 {
        lemma_sorted_all_pairs(keys, p, a, b - 1);
        assert(ranked_before(keys, p[b - 1] as int, p[b] as int));
        lemma_ranked_transitive(keys, p[a] as int, p[b - 1] as int, p[b] as int);
    }
}

/// Whether position `i` with key `x` ranks before position `j` with key `y`.
fn ranks_before(x: &SortKey, i: usize, y: &SortKey, j: usize) -> (r: bool)
    ensures
        r == (key_lt(x@, y@) || (x.text@ == y.text@ && x.a == y.a && x.b == y.b && x.c == y.c && i
            < j)),
{
    if text_less(x.text.as_str(), y.text.as_str()) {
        return true;
    }
    if text_less(y.text.as_str(), x.text.as_str()) {
        proof {
            assert(x.text@ != y.text@) by {
                if x.text@ == y.text@ {
                    let k = choose|k: int|
                        #![trigger y.text@.take(k), x.text@.take(k)]
                        0 <= k <= y.text@.len() && k <= x.text@.len() && y.text@.take(k)
                            == x.text@.take(k) && ((k == y.text@.len() && k < x.text@.len()) || (k
                            < y.text@.len() && k < x.text@.len() && (y.text@[k] as u32) < (
                        x.text@[k] as u32)));
                }
            }
        }
        return false;
    }
    proof {
        if x.text@ != y.text@ {
            lemma_text_total(x.text@, y.text@);
        }
    }
    if x.a != y.a {
        return x.a < y.a;
    }
    if x.b != y.b {
        return x.b < y.b;
    }
    if x.c != y.c {
        return x.c < y.c;
    }
    i < j
}

/// Inserting position `i` into a stable order of the positions `0..i` where it
/// ranks after its left neighbour and before its right neighbour gives a stable
/// order of `0..i + 1`.
proof fn lemma_insert_ranked(keys: Seq<KeySpec>, before: Seq<usize>, q: int, i: usize)
    requires
        i < keys.len(),
        0 <= q <= before.len(),
        is_permutation(before, i as nat),
        stably_sorted(keys, before),
        q > 0 ==> ranked_before(keys, before[q - 1] as int, i as int),
        q < before.len() ==> ranked_before(keys, i as int, before[q] as int),
    ensures
        is_permutation(before.insert(q, i), (i + 1) as nat),
        stably_sorted(keys, before.insert(q, i)),
{
    let p = before.insert(q, i);
    assert forall|k: int| 0 <= k < p.len() implies p[k] < i + 1 by {
        if k < q {
            assert(p[k] == before[k]);
        } else if k > q {
            assert(p[k] == before[k - 1]);
        }
    }
    assert forall|k: int, m: int| 0 <= k < p.len() && 0 <= m < p.len() && k != m implies p[k] != p[m] by {
        if k != q && m != q {
            let kk = if k < q { k } else { k - 1 };
            let mm = if m < q { m } else { m - 1 };
            assert(p[k] == before[kk]);
            assert(p[m] == before[mm]);
        } else if k == q {
            let mm = if m < q { m } else { m - 1 };
            assert(p[m] == before[mm]);
        } else {
            let kk = if k < q { k } else { k - 1 };
            assert(p[k] == before[kk]);
        }
    }
    assert forall|k: int| 0 <= k < p.len() - 1 implies ranked_before(
        keys,
        #[trigger] p[k] as int,
        p[k + 1] as int,
    ) by {
        if k + 1 < q {
            assert(p[k] == before[k] && p[k + 1] == before[k + 1]);
        } else if k + 1 == q {
            assert(p[k] == before[k]);
        } else if k == q {
            assert(p[k + 1] == before[k]);
        } else {
            assert(p[k] == before[k - 1] && p[k + 1] == before[k]);
        }
    }
}

/// The positions `0..keys.len()` in the order of a stable sort by `keys`.
pub fn stable_order(keys: &Vec<SortKey>) -> (p: Vec<usize>)
    ensures
        is_permutation(p@, keys@.len()),
        stably_sorted(key_views(keys@), p@),
{
    let n = keys.len();
    let mut p: Vec<usize> = Vec::new();
    let mut i: usize = 0;
    while i < n
        invariant
            n == keys@.len(),
            i <= n,
            is_permutation(p@, i as nat),
            stably_sorted(key_views(keys@), p@),
        decreases n - i,
    {
        let mut q: usize = p.len();
        while q > 0 && ranks_before(&keys[i], i, &keys[p[q - 1]], p[q - 1])
            invariant
                n == keys@.len(),
                i < n,
                q <= p.len(),
                is_permutation(p@, i as nat),
                stably_sorted(key_views(keys@), p@),
                forall|m: int| q <= m < p.len() ==> ranked_before(key_views(keys@), i as int, #[trigger] p@[m] as int),
            decreases q,
        {
            q = q - 1;
        }
        proof {
            if q > 0 {
                lemma_ranked_total(key_views(keys@), i as int, p@[q - 1] as int);
            }
        }
        let ghost before = p@;
        p.insert(q, i);
        proof {
            assert(p@ == before.insert(q as int, i));
            lemma_insert_ranked(key_views(keys@), before, q as int, i);
        }
        i = i + 1;
    }
    p
}

} // verus!
