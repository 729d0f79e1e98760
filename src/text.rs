//! Character-level text operations: white space, trimming, slugs, and
//! placeholder substitution.

use vstd::prelude::*;
use vstd::string::*;

verus! {

/// The Unicode `White_Space` property.
pub open spec fn white_space(c: char) -> bool {
    let u = c as u32;
    ||| (0x9 <= u && u <= 0xd)
    ||| u == 0x20
    ||| u == 0x85
    ||| u == 0xa0
    ||| u == 0x1680
    ||| (0x2000 <= u && u <= 0x200a)
    ||| u == 0x2028
    ||| u == 0x2029
    ||| u == 0x202f
    ||| u == 0x205f
    ||| u == 0x3000
}

pub fn is_white_space(c: char) -> (r: bool)
    ensures
        r == white_space(c),
{
    let u = c as u32;
    (0x9 <= u && u <= 0xd) || u == 0x20 || u == 0x85 || u == 0xa0 || u == 0x1680 || (0x2000
        <= u && u <= 0x200a) || u == 0x2028 || u == 0x2029 || u == 0x202f || u == 0x205f || u
        == 0x3000
}

pub open spec fn trim_start(s: Seq<char>) -> Seq<char>
    decreases s.len(),
{
    if s.len() > 0 && white_space(s[0]) {
        trim_start(s.skip(1))
    } else {
        s
    }
}

pub open spec fn trim_end(s: Seq<char>) -> Seq<char>
    decreases s.len(),
{
    if s.len() > 0 && white_space(s.last()) {
        trim_end(s.drop_last())
    } else {
        s
    }
}

/// `s` without leading and trailing white space.
pub open spec fn trim(s: Seq<char>) -> Seq<char> {
    trim_end(trim_start(s))
}

/// Removes leading and trailing white space.
pub fn trimmed(s: &str) -> (r: String)
    ensures
        r@ == trim(s@),
{
    let n = s.unicode_len();
    let mut i: usize = 0;
    assert(s@.subrange(0, n as int) =~= s@);
    while i < n && is_white_space(s.get_char(i))
        invariant
            n == s@.len(),
            i <= n,
            trim_start(s@) == trim_start(s@.subrange(i as int, n as int)),
        decreases n - i,
    {
        assert(s@.subrange(i as int, n as int).skip(1) =~= s@.subrange(i + 1, n as int));
        i = i + 1;
    }
    let mut j: usize = n;
    while j > i && is_white_space(s.get_char(j - 1))
        invariant
            n == s@.len(),
            i <= j <= n,
            trim_end(s@.subrange(i as int, n as int)) == trim_end(s@.subrange(i as int, j as int)),
        decreases j,
    {
        assert(s@.subrange(i as int, j as int).drop_last() =~= s@.subrange(i as int, j - 1));
        j = j - 1;
    }
    String::from_str(s.substring_char(i, j))
}

/// What heck's kebab case makes of a text.
pub uninterp spec fn kebab_of(s: Seq<char>) -> Seq<char>;

/// Relies on `heck::KebabCase::to_kebab_case`: the text's words in lower
/// case, joined by hyphens.
#[verifier::external_body]
pub(crate) fn kebab_case(s: &str) -> (r: String)
    ensures
        r@ == kebab_of(s@),
{
    heck::KebabCase::to_kebab_case(s)
}

/// `t` with every occurrence of `key`, scanned left to right without
/// overlap, replaced by `v`.
pub open spec fn substitute(t: Seq<char>, key: Seq<char>, v: Seq<char>) -> Seq<char>
    decreases t.len(),
{
    if t.len() == 0 {
        seq![]
    } else if key.len() > 0 && key.len() <= t.len() && t.take(key.len() as int) == key {
        v + substitute(t.skip(key.len() as int), key, v)
    } else {
        seq![t[0]] + substitute(t.skip(1), key, v)
    }
}

fn occurs_at(t: &str, n: usize, i: usize, key: &str, k: usize) -> (r: bool)
    requires
        n == t@.len(),
        k == key@.len(),
        i <= n,
    ensures
        r == (k <= n - i && t@.subrange(i as int, i + k) == key@),
{
    if k > n - i {
        return false;
    }
    let mut m: usize = 0;
    while m < k
        invariant
            k == key@.len(),
            n == t@.len(),
            i + k <= n,
            m <= k,
            forall|x: int| 0 <= x < m ==> t@[i + x] == key@[x],
        decreases k - m,
    {
        if t.get_char(i + m) != key.get_char(m) {
            assert(t@.subrange(i as int, i + k)[m as int] != key@[m as int]);
            return false;
        }
        m = m + 1;
    }
    assert(t@.subrange(i as int, i + k) =~= key@);
    true
}

/// Replaces every occurrence of `key` in `t` by `v`.
pub fn substitute_all(t: &str, key: &str, v: &str) -> (r: String)
    ensures
        r@ == substitute(t@, key@, v@),
{
    let n = t.unicode_len();
    let k = key.unicode_len();
    let mut out = String::new();
    let mut i: usize = 0;
    assert(t@.skip(0) =~= t@);
    while i < n
        invariant
            n == t@.len(),
            k == key@.len(),
            i <= n,
            substitute(t@, key@, v@) == out@ + substitute(t@.skip(i as int), key@, v@),
        decreases n - i,
    {
        let ghost rest = t@.skip(i as int);
        if k > 0 && occurs_at(t, n, i, key, k) {
            assert(rest.take(k as int) =~= t@.subrange(i as int, i + k));
            assert(rest.skip(k as int) =~= t@.skip(i + k));
            out.append(v);
            i = i + k;
        } else {
            assert(!(k > 0 && k <= rest.len() && rest.take(k as int) == key@)) by {
                if k > 0 && k <= rest.len() {
                    assert(rest.take(k as int) =~= t@.subrange(i as int, i + k));
                }
            }
            assert(rest.skip(1) =~= t@.skip(i + 1));
            assert(rest[0] == t@[i as int]);
            out.append(t.substring_char(i, i + 1));
            assert(t@.subrange(i as int, i + 1) =~= seq![rest[0]]);
            i = i + 1;
        }
    }
    assert(t@.skip(n as int) =~= seq![]);
    assert(out@ + seq![] =~= out@);
    out
}

/// Character-wise equality of two texts.
pub fn same_text(a: &str, b: &str) -> (r: bool)
    ensures
        r == (a@ == b@),
{
    let n = a.unicode_len();
    if n != b.unicode_len() {
        return false;
    }
    let mut i: usize = 0;
    while i < n
        invariant
            n == a@.len(),
            n == b@.len(),
            i <= n,
            forall|k: int| 0 <= k < i ==> a@[k] == b@[k],
        decreases n - i,
    {
        if a.get_char(i) != b.get_char(i) {
            return false;
        }
        i = i + 1;
    }
    assert(a@ =~= b@);
    true
}

} // verus!
