//! Text helpers over the character sequences that `String` and `&str` view as.
use vstd::prelude::*;
use vstd::string::StrSliceExecFns;

verus! {

/// Unicode `White_Space` property, as `char::is_whitespace` and `str::trim` use it.
pub open spec fn is_space(c: char) -> bool {
    let u = c as u32;
    ||| (0x09 <= u && u <= 0x0D)
    ||| u == 0x20
    ||| u == 0x85
    ||| u == 0xA0
    ||| u == 0x1680
    ||| (0x2000 <= u && u <= 0x200A)
    ||| u == 0x2028
    ||| u == 0x2029
    ||| u == 0x202F
    ||| u == 0x205F
    ||| u == 0x3000
}

/// Index of the first character at or after `i` that is not white space.
pub open spec fn skip_space_from(s: Seq<char>, i: int) -> int
    decreases s.len() - i,
{
    if 0 <= i < s.len() && is_space(s[i]) {
        skip_space_from(s, i + 1)
    } else {
        i
    }
}

/// One past the last character before `j` that is not white space.
pub open spec fn skip_space_back(s: Seq<char>, j: int) -> int
    decreases j,
{
    if 0 < j <= s.len() && is_space(s[j - 1]) {
        skip_space_back(s, j - 1)
    } else {
        j
    }
}

/// `s` without its leading and trailing white space.
pub open spec fn trimmed(s: Seq<char>) -> Seq<char> {
    let a = skip_space_from(s, 0);
    let b = skip_space_back(s, s.len() as int);
    if a < b {
        s.subrange(a, b)
    } else {
        Seq::empty()
    }
}

/// The part of an e-mail address before its first `@` (all of it when there is none).
pub open spec fn local_part(e: Seq<char>) -> Seq<char> {
    if e.contains('@') {
        e.take(first_at(e))
    } else {
        e
    }
}

/// Position of the first `@` of `e`.
pub open spec fn first_at(e: Seq<char>) -> int
    recommends
        e.contains('@'),
{
    choose|i: int| 0 <= i < e.len() && e[i] == '@' && (forall|j: int| 0 <= j < i ==> e[j] != '@')
}

/// Full Unicode lower-casing of a text, as `str::to_lowercase` does it.
pub uninterp spec fn lowercase(s: Seq<char>) -> Seq<char>;

/// Lower-cases a text with `str::to_lowercase` from std.
/// The contract names the result only; the Unicode case tables are not restated.
#[verifier::external_body]
pub(crate) fn to_lower(s: &str) -> (r: String)
    ensures
        r@ == lowercase(s@),
{
    s.to_lowercase()
}

/// Whether `c` is white space in the sense of [`is_space`].
pub fn char_is_space(c: char) -> (b: bool)
    ensures
        b == is_space(c),
{
    let u = c as u32;
    (0x09 <= u && u <= 0x0D) || u == 0x20 || u == 0x85 || u == 0xA0 || u == 0x1680 || (0x2000
        <= u && u <= 0x200A) || u == 0x2028 || u == 0x2029 || u == 0x202F || u == 0x205F || u
        == 0x3000
}

proof fn lemma_skip_from_bounds(s: Seq<char>, i: int)
    requires
        0 <= i <= s.len(),
    ensures
        i <= skip_space_from(s, i) <= s.len(),
        forall|k: int| i <= k < skip_space_from(s, i) ==> is_space(s[k]),
        skip_space_from(s, i) < s.len() ==> !is_space(s[skip_space_from(s, i)]),
    decreases s.len() - i,
{
    if i < s.len() && is_space(s[i]) {
        lemma_skip_from_bounds(s, i + 1);
    }
}

proof fn lemma_skip_back_bounds(s: Seq<char>, j: int)
    requires
        0 <= j <= s.len(),
    ensures
        0 <= skip_space_back(s, j) <= j,
        forall|k: int| skip_space_back(s, j) <= k < j ==> is_space(s[k]),
        skip_space_back(s, j) > 0 ==> !is_space(s[skip_space_back(s, j) - 1]),
    decreases j,
{
    if 0 < j && is_space(s[j - 1]) {
        lemma_skip_back_bounds(s, j - 1);
    }
}

/// `str::trim`: the text without leading and trailing white space.
pub fn trim_text(s: &str) -> (r: String)
    ensures
        r@ == trimmed(s@),
{
    let n = s.unicode_len();
    let mut a: usize = 0;
    while a < n && char_is_space(s.get_char(a))
        invariant
            n == s@.len(),
            a <= n,
            skip_space_from(s@, a as int) == skip_space_from(s@, 0),
        decreases n - a,
    {
        a = a + 1;
    }
    let mut b: usize = n;
    while b > a && char_is_space(s.get_char(b - 1))
        invariant
            n == s@.len(),
            a <= b <= n,
            skip_space_back(s@, b as int) == skip_space_back(s@, n as int),
            forall|k: int| b <= k < n ==> is_space(s@[k]),
        decreases b,
    {
        b = b - 1;
    }
    proof {
        lemma_skip_from_bounds(s@, 0);
        lemma_skip_back_bounds(s@, n as int);
        if b > a {
            assert(!is_space(s@[b - 1]));
        } else {
            // every character is white space or the range is empty
            if skip_space_back(s@, n as int) > a {
                let t = skip_space_back(s@, n as int);
                assert(!is_space(s@[t - 1]));
                assert(t - 1 >= b);
            }
        }
    }
    if a < b {
        s.substring_char(a, b).to_string()
    } else {
        String::new()
    }
}

/// Whether two texts hold the same characters.
pub fn text_eq(a: &str, b: &str) -> (r: bool)
    ensures
        r == (a@ == b@),
{
    let n = a.unicode_len();
    let m = b.unicode_len();
    if n != m {
        return false;
    }
    let mut i: usize = 0;
    while i < n
        invariant
            n == a@.len(),
            m == b@.len(),
            n == m,
            i <= n,
            forall|j: int| 0 <= j < i ==> a@[j] == b@[j],
        decreases n - i,
    {
        if a.get_char(i) != b.get_char(i) {
            return false;
        }
        i = i + 1;
    }
    assert(a@ =~= b@);
    true
}

/// `str::starts_with` for a text prefix.
pub fn has_prefix(s: &str, prefix: &str) -> (r: bool)
    ensures
        r == prefix@.is_prefix_of(s@),
{
    let n = s.unicode_len();
    let m = prefix.unicode_len();
    if m > n {
        return false;
    }
    let mut i: usize = 0;
    while i < m
        invariant
            n == s@.len(),
            m == prefix@.len(),
            m <= n,
            i <= m,
            forall|j: int| 0 <= j < i ==> prefix@[j] == s@[j],
        decreases m - i,
    {
        if s.get_char(i) != prefix.get_char(i) {
            return false;
        }
        i = i + 1;
    }
    true
}

/// The part of `email` before its first `@`, as `email.split('@').next()` gives it.
pub fn email_local_part(email: &str) -> (r: String)
    ensures
        r@ == local_part(email@),
{
    let n = email.unicode_len();
    let mut i: usize = 0;
    while i < n
        invariant
            n == email@.len(),
            i <= n,
            forall|j: int| 0 <= j < i ==> email@[j] != '@',
        decreases n - i,
    {
        if email.get_char(i) == '@' {
            proof {
                assert(email@.contains('@'));
                let k = first_at(email@);
                assert(0 <= i < email@.len() && email@[i as int] == '@' && (forall|j: int|
                    0 <= j < i ==> email@[j] != '@'));
                assert(k == i as int) by {
                    if k < i {
                    } else if k > i {
                    }
                }
            }
            return email.substring_char(0, i).to_string();
        }
        i = i + 1;
    }
    proof {
        assert(!email@.contains('@'));
        assert(email@.subrange(0, n as int) =~= email@);
    }
    email.substring_char(0, n).to_string()
}

/// Whether `items` holds a text equal to `t`.
pub open spec fn has_text(items: Seq<String>, t: Seq<char>) -> bool {
    exists|i: int| 0 <= i < items.len() && items[i]@ == t
}

/// `Vec::contains` over texts.
pub fn contains_text(items: &Vec<String>, t: &str) -> (r: bool)
    ensures
        r == has_text(items@, t@),
{
    let mut i: usize = 0;
    while i < items.len()
        invariant
            i <= items.len(),
            forall|j: int| 0 <= j < i ==> items@[j]@ != t@,
        decreases items.len() - i,
    {
        if text_eq(items[i].as_str(), t) {
            return true;
        }
        i = i + 1;
    }
    false
}

/// The texts of `v` other than `name`, in order (`retain(|t| t != name)`).
pub fn texts_without(v: &Vec<String>, name: &str) -> (r: Vec<String>)
    ensures
        r@ == v@.filter(|t: String| t@ != name@),
{
    let mut r: Vec<String> = Vec::new();
    let mut i: usize = 0;
    while i < v.len()
        invariant
            i <= v.len(),
            r@ == v@.take(i as int).filter(|t: String| t@ != name@),
        decreases v.len() - i,
    {
        proof {
            reveal_with_fuel(Seq::<_>::filter, 1);
            assert(v@.take(i + 1).drop_last() =~= v@.take(i as int));
        }
        if !text_eq(v[i].as_str(), name) {
            r.push(v[i].clone());
        }
        i = i + 1;
    }
    assert(v@.take(v.len() as int) =~= v@);
    r
}

/// A copy of an optional text.
pub fn copy_opt_text(o: &Option<String>) -> (r: Option<String>)
    ensures
        r == *o,
{
    match o {
        Some(s) => Some(s.clone()),
        None => None,
    }
}

/// A copy of a list of texts.
pub fn copy_texts(v: &Vec<String>) -> (r: Vec<String>)
    ensures
        r@ == v@,
{
    let mut r: Vec<String> = Vec::new();
    let mut i: usize = 0;
    while i < v.len()
        invariant
            i <= v.len(),
            r@ == v@.take(i as int),
        decreases v.len() - i,
    {
        r.push(v[i].clone());
        assert(r@ =~= v@.take(i + 1));
        i = i + 1;
    }
    assert(v@.take(v.len() as int) =~= v@);
    r
}

} // verus!
