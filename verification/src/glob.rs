//! Simple case-insensitive globs over release asset names: `*` stands for any
//! run of characters (the empty one too); there is no `?`.
use crate::text::{ascii_lower, chars_of, ends_with};
use vstd::prelude::*;

verus! {

/// The lowercase form of `s` that `str::to_lowercase` returns (Unicode
/// lowercase mapping).
pub uninterp spec fn lowercased(s: Seq<char>) -> Seq<char>;

/// Every character of `s` is ASCII.
pub open spec fn is_ascii_text(s: Seq<char>) -> bool {
    forall|i: int| 0 <= i < s.len() ==> #[trigger] s[i] <= '\u{7f}'
}

/// `s` with `A`-`Z` turned into `a`-`z` and every other character kept.
pub open spec fn ascii_lowercase(s: Seq<char>) -> Seq<char> {
    s.map_values(|c: char| ascii_lower(c))
}

/// `str::to_lowercase`: the contract names its result `lowercased(s@)`,
/// and states what std documents for ASCII text: only `A`-`Z` change, to
/// `a`-`z`.
#[verifier::external_body]
pub(crate) fn to_lower(s: &str) -> (r: String)
    ensures
        r@ == lowercased(s@),
        is_ascii_text(s@) ==> r@ == ascii_lowercase(s@),
{
    s.to_lowercase()
}

/// `n` is in the language of the glob `p`.
pub open spec fn glob(p: Seq<char>, n: Seq<char>) -> bool
    decreases p.len() + n.len(),
{
    if p.len() == 0 {
        n.len() == 0
    } else if p[0] == '*' {
        glob(p.drop_first(), n) || (n.len() > 0 && glob(p, n.drop_first()))
    } else {
        n.len() > 0 && p[0] == n[0] && glob(p.drop_first(), n.drop_first())
    }
}

/// Whether the glob `p` matches `n`, exactly as characters (no case folding).
pub fn glob_chars(p: &Vec<char>, n: &Vec<char>) -> (b: bool)
    ensures
        b == glob(p@, n@),
{
    let m = p.len();
    let len = n.len();
    // next[j] == glob(p[i+1..], n[j..]) for the row below the current one.
    let mut next: Vec<bool> = Vec::new();
    let mut j: usize = 0;
    while j < len
        invariant
            len == n.len(),
            j <= len,
            next@.len() == j,
            forall|t: int| 0 <= t < j ==> next@[t] == (t == len),
        decreases len - j,
    {
        next.push(false);
        j += 1;
    }
    next.push(true);
    assert forall|t: int| 0 <= t <= len implies next@[t] == glob(p@.skip(m as int), n@.skip(t)) by {
        assert(p@.skip(m as int).len() == 0);
    }
    let mut i: usize = m;
    while i > 0
        invariant
            m == p.len(),
            len == n.len(),
            i <= m,
            next@.len() == len + 1,
            forall|t: int| 0 <= t <= len ==> next@[t] == glob(p@.skip(i as int), n@.skip(t)),
        decreases i,
    {
        let pi = p[i - 1];
        let ghost ps = p@.skip(i - 1);
        assert(ps.len() > 0 && ps[0] == pi);
        assert(ps.drop_first() == p@.skip(i as int));
        let mut cur: Vec<bool> = Vec::new();
        let mut f: usize = 0;
        while f < len
            invariant
                len == n.len(),
                f <= len,
                cur@.len() == f,
            decreases len - f,
        {
            cur.push(false);
            f += 1;
        }
        cur.push(false);
        assert(n@.skip(len as int).len() == 0);
        let last = if pi == '*' {
            next[len]
        } else {
            false
        };
        assert(last == glob(ps, n@.skip(len as int)));
        cur.set(len, last);
        let mut k: usize = len;
        while k > 0
            invariant
                m == p.len(),
                len == n.len(),
                1 <= i <= m,
                pi == p@[i - 1],
                ps == p@.skip(i - 1),
                ps.len() > 0 && ps[0] == pi,
                ps.drop_first() == p@.skip(i as int),
                k <= len,
                next@.len() == len + 1,
                cur@.len() == len + 1,
                forall|t: int| 0 <= t <= len ==> next@[t] == glob(p@.skip(i as int), n@.skip(t)),
                forall|t: int| k <= t <= len ==> cur@[t] == glob(ps, n@.skip(t)),
            decreases k,
        {
            let jj = k - 1;
            let ghost ns = n@.skip(jj as int);
            assert(ns.len() > 0 && ns[0] == n@[jj as int]);
            assert(ns.drop_first() == n@.skip(jj + 1));
            let v = if pi == '*' {
                next[jj] || cur[jj + 1]
            } else {
                pi == n[jj] && next[jj + 1]
            };
            assert(v == glob(ps, ns));
            cur.set(jj, v);
            k = jj;
        }
        next = cur;
        i -= 1;
    }
    assert(p@.skip(0) == p@);
    assert(n@.skip(0) == n@);
    next[0]
}

/// Simple glob, case-insensitive: both texts are lowercased, then `*`
/// stands for any run of characters; an empty pattern names no constraint
/// and matches every name.
pub open spec fn glob_matches(pattern: Seq<char>, name: Seq<char>) -> bool {
    let p = lowercased(pattern);
    p.len() == 0 || glob(p, lowercased(name))
}

pub fn glob_match(pattern: &str, name: &str) -> (b: bool)
    ensures
        b == glob_matches(pattern@, name@),
        is_ascii_text(pattern@) && is_ascii_text(name@) ==> b == (pattern@.len() == 0 || glob(
            ascii_lowercase(pattern@),
            ascii_lowercase(name@),
        )),
{
    let p = to_lower(pattern);
    let pv = chars_of(p.as_str());
    if pv.len() == 0 {
        return true;
    }
    let n = to_lower(name);
    let nv = chars_of(n.as_str());
    glob_chars(&pv, &nv)
}

/// No `*` in `s`.
pub open spec fn star_free(s: Seq<char>) -> bool {
    forall|i: int| 0 <= i < s.len() ==> #[trigger] s[i] != '*'
}

/// A glob without `*` matches exactly its own text.
pub proof fn lemma_glob_literal(p: Seq<char>, n: Seq<char>)
    requires
        star_free(p),
    ensures
        glob(p, n) <==> p == n,
    decreases p.len() + n.len(),
{
    if p.len() > 0 && n.len() > 0 {
        assert(p[0] != '*');
        assert forall|i: int| 0 <= i < p.drop_first().len() implies #[trigger] p.drop_first()[i]
            != '*' by {
            assert(p.drop_first()[i] == p[i + 1]);
        }
        lemma_glob_literal(p.drop_first(), n.drop_first());
        if p[0] == n[0] && p.drop_first() == n.drop_first() {
            assert forall|i: int| 0 <= i < p.len() implies p[i] == n[i] by {
                if i > 0 {
                    assert(p[i] == p.drop_first()[i - 1]);
                    assert(n[i] == n.drop_first()[i - 1]);
                }
            }
            assert(p =~= n);
        }
        if p == n {
            assert(p.drop_first() == n.drop_first());
        }
    } else if p.len() > 0 {
        assert(p[0] != '*');
    } else if n.len() == 0 {
        assert(p =~= n);
    }
}

/// A glob that is `*` followed by star-free text matches exactly the names
/// that end with that text.
pub proof fn lemma_glob_star_suffix(s: Seq<char>, n: Seq<char>)
    requires
        star_free(s),
    ensures
        glob(seq!['*'] + s, n) <==> ends_with(n, s),
    decreases n.len(),
{
    let p = seq!['*'] + s;
    assert(p.drop_first() == s);
    lemma_glob_literal(s, n);
    if n.len() > 0 {
        lemma_glob_star_suffix(s, n.drop_first());
        if n.len() > s.len() {
            assert(n.drop_first().skip(n.drop_first().len() - s.len()) == n.skip(n.len() - s.len()));
        } else if n.len() == s.len() {
            assert(n.skip(0) == n);
        }
    } else if s.len() == 0 {
        assert(n.skip(0) =~= s);
    }
}

/// `*` alone matches every name.
pub proof fn lemma_glob_star_matches_all(n: Seq<char>)
    ensures
        glob(seq!['*'], n),
{
    assert(star_free(Seq::<char>::empty()));
    lemma_glob_star_suffix(Seq::empty(), n);
    assert(seq!['*'] + Seq::<char>::empty() == seq!['*']);
    assert(n.skip(n.len() - 0) == Seq::<char>::empty());
}

} // verus!
