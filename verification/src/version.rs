//! Versions read out of file names such as "LocalOffice_0.14.6_amd64.AppImage".
use crate::text::{
    char_is_digit, chars_of, is_ascii_digit, pieces_view, split_by, split_chars, string_of,
    trim_by, trim_chars, CharSet, slice_chars,
};
use vstd::prelude::*;

verus! {

pub open spec fn is_version_char(c: char) -> bool {
    is_ascii_digit(c) || c == '.'
}

/// The length of the run of digits and dots at the start of `s`.
pub open spec fn run_len(s: Seq<char>) -> nat
    decreases s.len(),
{
    if s.len() > 0 && is_version_char(s[0]) {
        1 + run_len(s.drop_first())
    } else {
        0
    }
}

/// At least two dot-separated groups, each a non-empty run of digits ("2"
/// alone is no version).
pub open spec fn is_version_text(v: Seq<char>) -> bool {
    let g = split_by(v, CharSet::One('.'));
    &&& g.len() >= 2
    &&& forall|k: int| 0 <= k < g.len() ==> (#[trigger] g[k]).len() > 0
    &&& forall|k: int, i: int| 0 <= k < g.len() && 0 <= i < g[k].len() ==> is_ascii_digit(#[trigger] g[k][i])
}

/// The first run of digits and dots in `s` that, without the dots at its
/// ends, is a version text.
pub open spec fn first_version(s: Seq<char>) -> Option<Seq<char>>
    decreases s.len(),
{
    let r = run_len(s);
    let v = trim_by(s.take(r as int), CharSet::One('.'));
    if is_version_text(v) {
        Some(v)
    } else if r >= s.len() {
        None
    } else {
        first_version(s.skip(r + 1 as int))
    }
}

proof fn lemma_run_len_at(s: Seq<char>, k: int)
    requires
        0 <= k <= s.len(),
        forall|j: int| 0 <= j < k ==> is_version_char(#[trigger] s[j]),
        k == s.len() || !is_version_char(s[k]),
    ensures
        run_len(s) == k,
    decreases k,
{
    if k > 0 {
        let t = s.drop_first();
        assert forall|j: int| 0 <= j < k - 1 implies is_version_char(#[trigger] t[j]) by {
            assert(t[j] == s[j + 1]);
        }
        if k < s.len() {
            assert(t[k - 1] == s[k]);
        }
        lemma_run_len_at(t, k - 1);
    }
}

fn is_version_chars(v: &Vec<char>) -> (b: bool)
    ensures
        b == is_version_text(v@),
{
    let g = split_chars(v, CharSet::One('.'));
    let ghost gv = pieces_view(g@);
    if g.len() < 2 {
        return false;
    }
    let mut k: usize = 0;
    while k < g.len()
        invariant
            k <= g.len(),
            gv == pieces_view(g@),
            gv == split_by(v@, CharSet::One('.')),
            forall|k2: int| 0 <= k2 < k ==> (#[trigger] gv[k2]).len() > 0,
            forall|k2: int, i: int|
                0 <= k2 < k && 0 <= i < gv[k2].len() ==> is_ascii_digit(#[trigger] gv[k2][i]),
        decreases g.len() - k,
    {
        let part = &g[k];
        assert(part@ == gv[k as int]);
        if part.len() == 0 {
            return false;
        }
        let mut i: usize = 0;
        while i < part.len()
            invariant
                i <= part.len(),
                k < gv.len(),
                gv == split_by(v@, CharSet::One('.')),
                part@ == gv[k as int],
                forall|j: int| 0 <= j < i ==> is_ascii_digit(#[trigger] part@[j]),
            decreases part.len() - i,
        {
            if !char_is_digit(part[i]) {
                assert(!is_ascii_digit(gv[k as int][i as int]));
                return false;
            }
            i += 1;
        }
        k += 1;
    }
    true
}

/// Reads "0.14.6" out of "LocalOffice_0.14.6_amd64.AppImage" and "0.7.1" out
/// of "OpenObsidian-0.7.1.AppImage": the first run of digits and dots that
/// holds at least two numeric groups, without the dots at its ends.
pub fn version_from_filename(name: &str) -> (r: Option<String>)
    ensures
        match r {
            Some(v) => first_version(name@) == Some(v@),
            None => first_version(name@) is None,
        },
{
    let s = chars_of(name);
    let n = s.len();
    let mut start: usize = 0;
    let mut i: usize = 0;
    assert(s@.skip(0) == s@);
    while i < n
        invariant
            n == s.len(),
            s@ == name@,
            start <= i <= n,
            first_version(s@) == first_version(s@.skip(start as int)),
            forall|j: int| start <= j < i ==> is_version_char(#[trigger] s@[j]),
        decreases n - i,
    {
        let c = s[i];
        if char_is_digit(c) || c == '.' {
            i += 1;
        } else {
            let ghost t = s@.skip(start as int);
            proof {
                assert forall|j: int| 0 <= j < i - start implies is_version_char(#[trigger] t[j]) by {
                    assert(t[j] == s@[start + j]);
                }
                assert(t[i - start] == c);
                lemma_run_len_at(t, i - start);
            }
            let run = slice_chars(&s, start, i);
            assert(run@ == t.take(i - start));
            let v = trim_chars(&run, CharSet::One('.'));
            if is_version_chars(&v) {
                return Some(string_of(&v));
            }
            assert(t.skip(i - start + 1) == s@.skip(i + 1));
            start = i + 1;
            i += 1;
        }
    }
    let ghost t = s@.skip(start as int);
    proof {
        assert forall|j: int| 0 <= j < n - start implies is_version_char(#[trigger] t[j]) by {
            assert(t[j] == s@[start + j]);
        }
        lemma_run_len_at(t, n - start);
    }
    let run = slice_chars(&s, start, n);
    assert(run@ == t.take(n - start));
    let v = trim_chars(&run, CharSet::One('.'));
    if is_version_chars(&v) {
        Some(string_of(&v))
    } else {
        None
    }
}

/// Whatever version a file name yields has at least two numeric groups:
/// a lone number ("App2") is never taken for a version.
pub proof fn law_found_version_has_two_groups(s: Seq<char>)
    ensures
        first_version(s) matches Some(v) ==> is_version_text(v),
    decreases s.len(),
{
    let r = run_len(s);
    let v = trim_by(s.take(r as int), CharSet::One('.'));
    if !is_version_text(v) && r < s.len() {
        law_found_version_has_two_groups(s.skip(r + 1 as int));
    }
}

} // verus!
