//! Character classes and the small text operations the rest of the library
//! is built from, each with the specification it is proved against.
use vstd::prelude::*;
use vstd::string::*;

verus! {

/// Unicode `White_Space`, the set that `char::is_whitespace` and `str::trim`
/// use.
pub open spec fn is_ws(c: char) -> bool {
    ||| ('\u{9}' <= c && c <= '\u{d}')
    ||| c == ' '
    ||| c == '\u{85}'
    ||| c == '\u{a0}'
    ||| c == '\u{1680}'
    ||| ('\u{2000}' <= c && c <= '\u{200a}')
    ||| c == '\u{2028}'
    ||| c == '\u{2029}'
    ||| c == '\u{202f}'
    ||| c == '\u{205f}'
    ||| c == '\u{3000}'
}

pub open spec fn is_ascii_digit(c: char) -> bool {
    '0' <= c && c <= '9'
}

pub open spec fn is_ascii_alnum(c: char) -> bool {
    is_ascii_digit(c) || ('a' <= c && c <= 'z') || ('A' <= c && c <= 'Z')
}

/// ASCII lowercasing of one character; every other character is kept.
pub open spec fn ascii_lower(c: char) -> char {
    if 'A' <= c && c <= 'Z' {
        (((c as u8) + 32) as u8) as char
    } else {
        c
    }
}

pub fn char_is_ws(c: char) -> (b: bool)
    ensures
        b == is_ws(c),
{
    ('\u{9}' <= c && c <= '\u{d}') || c == ' ' || c == '\u{85}' || c == '\u{a0}' || c
        == '\u{1680}' || ('\u{2000}' <= c && c <= '\u{200a}') || c == '\u{2028}' || c
        == '\u{2029}' || c == '\u{202f}' || c == '\u{205f}' || c == '\u{3000}'
}

pub fn char_is_digit(c: char) -> (b: bool)
    ensures
        b == is_ascii_digit(c),
{
    '0' <= c && c <= '9'
}

pub fn char_is_alnum(c: char) -> (b: bool)
    ensures
        b == is_ascii_alnum(c),
{
    ('0' <= c && c <= '9') || ('a' <= c && c <= 'z') || ('A' <= c && c <= 'Z')
}

pub fn char_ascii_lower(c: char) -> (r: char)
    ensures
        r == ascii_lower(c),
{
    if 'A' <= c && c <= 'Z' {
        let u: u8 = c as u8;
        assert(65 <= u <= 90);
        let l: u8 = u + 32;
        l as char
    } else {
        c
    }
}

/// Appends one character (`String::push`).
#[verifier::external_body]
fn push_char(s: &mut String, c: char)
    ensures
        final(s)@ == old(s)@.push(c),
{
    s.push(c);
}

/// The characters of a string slice, in order.
pub fn chars_of(s: &str) -> (v: Vec<char>)
    ensures
        v@ == s@,
{
    let mut v: Vec<char> = Vec::new();
    for c in it: s.chars()
        invariant
            v@ == it.seq().take(it.index()),
    {
        v.push(c);
    }
    v
}

/// The string made of the given characters.
pub fn string_of(v: &Vec<char>) -> (s: String)
    ensures
        s@ == v@,
{
    let mut s = String::new();
    let mut i: usize = 0;
    while i < v.len()
        invariant
            i <= v.len(),
            s@ == v@.take(i as int),
        decreases v.len() - i,
    {
        push_char(&mut s, v[i]);
        assert(v@.take(i + 1) == v@.take(i as int).push(v@[i as int]));
        i += 1;
    }
    assert(v@.take(v.len() as int) == v@);
    s
}

/// A set of characters that text is split or trimmed by.
#[derive(Clone, Copy)]
pub enum CharSet {
    One(char),
    Whitespace,
}

pub open spec fn in_set(k: CharSet, c: char) -> bool {
    match k {
        CharSet::One(x) => c == x,
        CharSet::Whitespace => is_ws(c),
    }
}

pub fn set_has(k: CharSet, c: char) -> (b: bool)
    ensures
        b == in_set(k, c),
{
    match k {
        CharSet::One(x) => c == x,
        CharSet::Whitespace => char_is_ws(c),
    }
}

/// The pieces between separators, as `str::split` gives them: one more
/// piece than there are separators, empty pieces included.
pub open spec fn split_by(s: Seq<char>, k: CharSet) -> Seq<Seq<char>>
    decreases s.len(),
{
    if s.len() == 0 {
        seq![Seq::empty()]
    } else {
        let init = split_by(s.drop_last(), k);
        if in_set(k, s.last()) {
            init.push(Seq::empty())
        } else {
            init.update(init.len() - 1, init.last().push(s.last()))
        }
    }
}

pub proof fn lemma_split_by_nonempty(s: Seq<char>, k: CharSet)
    ensures
        split_by(s, k).len() >= 1,
    decreases s.len(),
{
    if s.len() > 0 {
        lemma_split_by_nonempty(s.drop_last(), k);
    }
}

/// `s` without the characters of `k` at its start.
pub open spec fn trim_start_by(s: Seq<char>, k: CharSet) -> Seq<char>
    decreases s.len(),
{
    if s.len() > 0 && in_set(k, s[0]) {
        trim_start_by(s.drop_first(), k)
    } else {
        s
    }
}

/// `s` without the characters of `k` at its end.
pub open spec fn trim_end_by(s: Seq<char>, k: CharSet) -> Seq<char>
    decreases s.len(),
{
    if s.len() > 0 && in_set(k, s.last()) {
        trim_end_by(s.drop_last(), k)
    } else {
        s
    }
}

/// `s` without the characters of `k` at either end (`str::trim_matches`,
/// and `str::trim` for whitespace).
pub open spec fn trim_by(s: Seq<char>, k: CharSet) -> Seq<char> {
    trim_end_by(trim_start_by(s, k), k)
}

/// The character sequences held by a list of character vectors.
pub open spec fn pieces_view(v: Seq<Vec<char>>) -> Seq<Seq<char>> {
    v.map_values(|p: Vec<char>| p@)
}

/// Splits `s` at every character of `k`.
pub fn split_chars(s: &Vec<char>, k: CharSet) -> (r: Vec<Vec<char>>)
    ensures
        pieces_view(r@) == split_by(s@, k),
{
    let mut done: Vec<Vec<char>> = Vec::new();
    let mut cur: Vec<char> = Vec::new();
    let mut i: usize = 0;
    assert(s@.take(0) == Seq::<char>::empty());
    while i < s.len()
        invariant
            i <= s.len(),
            split_by(s@.take(i as int), k) == pieces_view(done@).push(cur@),
        decreases s.len() - i,
    {
        let c = s[i];
        let ghost before = pieces_view(done@);
        let ghost cur_before = cur@;
        assert(s@.take(i + 1).drop_last() == s@.take(i as int));
        assert(s@.take(i + 1).last() == c);
        if set_has(k, c) {
            done.push(cur);
            cur = Vec::new();
            assert(pieces_view(done@) =~= before.push(cur_before));
            assert(split_by(s@.take(i + 1), k) =~= pieces_view(done@).push(cur@));
        } else {
            cur.push(c);
            assert(split_by(s@.take(i + 1), k) =~= before.push(cur@));
        }
        i += 1;
    }
    assert(s@.take(s.len() as int) == s@);
    done.push(cur);
    done
}

proof fn lemma_trim_start_at(s: Seq<char>, k: CharSet, i: int)
    requires
        0 <= i <= s.len(),
        forall|j: int| 0 <= j < i ==> in_set(k, #[trigger] s[j]),
        i == s.len() || !in_set(k, s[i]),
    ensures
        trim_start_by(s, k) == s.skip(i),
    decreases i,
{
    if i == 0 {
        assert(s.skip(0) == s);
    } else {
        let t = s.drop_first();
        assert forall|j: int| 0 <= j < i - 1 implies in_set(k, #[trigger] t[j]) by {
            assert(t[j] == s[j + 1]);
        }
        if i - 1 < t.len() {
            assert(t[i - 1] == s[i]);
        }
        lemma_trim_start_at(t, k, i - 1);
        assert(t.skip(i - 1) == s.skip(i));
    }
}

proof fn lemma_trim_end_at(s: Seq<char>, k: CharSet, j: int)
    requires
        0 <= j <= s.len(),
        forall|t: int| j <= t < s.len() ==> in_set(k, #[trigger] s[t]),
        j == 0 || !in_set(k, s[j - 1]),
    ensures
        trim_end_by(s, k) == s.take(j),
    decreases s.len() - j,
{
    if j == s.len() {
        assert(s.take(j) == s);
    } else {
        let t = s.drop_last();
        assert forall|u: int| j <= u < t.len() implies in_set(k, #[trigger] t[u]) by {
            assert(t[u] == s[u]);
        }
        if j > 0 {
            assert(t[j - 1] == s[j - 1]);
        }
        lemma_trim_end_at(t, k, j);
        assert(t.take(j) == s.take(j));
    }
}

/// The characters of `v` from `from` up to `to`.
pub fn slice_chars(v: &Vec<char>, from: usize, to: usize) -> (r: Vec<char>)
    requires
        from <= to <= v.len(),
    ensures
        r@ == v@.subrange(from as int, to as int),
{
    let mut r: Vec<char> = Vec::new();
    let mut i = from;
    while i < to
        invariant
            from <= i <= to <= v.len(),
            r@ == v@.subrange(from as int, i as int),
        decreases to - i,
    {
        r.push(v[i]);
        assert(v@.subrange(from as int, i + 1) == v@.subrange(from as int, i as int).push(v@[i as int]));
        i += 1;
    }
    r
}

/// A copy of `v`.
pub fn copy_chars(v: &Vec<char>) -> (r: Vec<char>)
    ensures
        r@ == v@,
{
    let r = slice_chars(v, 0, v.len());
    assert(v@.subrange(0, v@.len() as int) == v@);
    r
}

/// `v` without the characters of `k` at either end.
pub fn trim_chars(v: &Vec<char>, k: CharSet) -> (r: Vec<char>)
    ensures
        r@ == trim_by(v@, k),
{
    let n = v.len();
    let mut i: usize = 0;
    while i < n && set_has(k, v[i])
        invariant
            i <= n == v.len(),
            forall|j: int| 0 <= j < i ==> in_set(k, #[trigger] v@[j]),
        decreases n - i,
    {
        i += 1;
    }
    proof {
        lemma_trim_start_at(v@, k, i as int);
    }
    let ghost rest = v@.skip(i as int);
    let mut j: usize = n;
    while j > i && set_has(k, v[j - 1])
        invariant
            i <= j <= n == v.len(),
            rest == v@.skip(i as int),
            forall|t: int| j <= t < n ==> in_set(k, #[trigger] v@[t]),
        decreases j,
    {
        j -= 1;
    }
    proof {
        let jj = (j - i) as int;
        assert forall|t: int| jj <= t < rest.len() implies in_set(k, #[trigger] rest[t]) by {
            assert(rest[t] == v@[t + i]);
        }
        if jj > 0 {
            assert(rest[jj - 1] == v@[j - 1]);
        }
        lemma_trim_end_at(rest, k, jj);
        assert(rest.take(jj) == v@.subrange(i as int, j as int));
    }
    slice_chars(v, i, j)
}

/// `s` begins with `p`.
pub open spec fn starts_with(s: Seq<char>, p: Seq<char>) -> bool {
    p.len() <= s.len() && s.take(p.len() as int) == p
}

/// `s` ends with `p`.
pub open spec fn ends_with(s: Seq<char>, p: Seq<char>) -> bool {
    p.len() <= s.len() && s.skip(s.len() - p.len()) == p
}

pub fn has_prefix(s: &Vec<char>, p: &Vec<char>) -> (b: bool)
    ensures
        b == starts_with(s@, p@),
{
    if p.len() > s.len() {
        return false;
    }
    let mut i: usize = 0;
    while i < p.len()
        invariant
            p.len() <= s.len(),
            i <= p.len(),
            forall|j: int| 0 <= j < i ==> s@[j] == p@[j],
        decreases p.len() - i,
    {
        if s[i] != p[i] {
            assert(s@.take(p.len() as int)[i as int] != p@[i as int]);
            return false;
        }
        i += 1;
    }
    assert(s@.take(p.len() as int) =~= p@);
    true
}

pub fn has_suffix(s: &Vec<char>, p: &Vec<char>) -> (b: bool)
    ensures
        b == ends_with(s@, p@),
{
    if p.len() > s.len() {
        return false;
    }
    let off = s.len() - p.len();
    let mut i: usize = 0;
    while i < p.len()
        invariant
            p.len() <= s.len(),
            off == s.len() - p.len(),
            i <= p.len(),
            forall|j: int| 0 <= j < i ==> s@[off + j] == p@[j],
        decreases p.len() - i,
    {
        if s[off + i] != p[i] {
            assert(s@.skip(off as int)[i as int] != p@[i as int]);
            return false;
        }
        i += 1;
    }
    assert(s@.skip(off as int) =~= p@);
    true
}

/// `s` with `p` removed from its start when it is there.
pub open spec fn strip_prefix_or_keep(s: Seq<char>, p: Seq<char>) -> Seq<char> {
    if starts_with(s, p) {
        s.skip(p.len() as int)
    } else {
        s
    }
}

pub fn strip_prefix_chars(s: &Vec<char>, p: &Vec<char>) -> (r: Vec<char>)
    ensures
        r@ == strip_prefix_or_keep(s@, p@),
{
    if has_prefix(s, p) {
        slice_chars(s, p.len(), s.len())
    } else {
        copy_chars(s)
    }
}

/// `s` with every trailing repetition of `p` removed (`str::trim_end_matches`
/// with a string pattern).
pub open spec fn trim_end_pat(s: Seq<char>, p: Seq<char>) -> Seq<char>
    decreases s.len(),
{
    if p.len() > 0 && ends_with(s, p) {
        trim_end_pat(s.take(s.len() - p.len()), p)
    } else {
        s
    }
}

pub fn trim_end_pat_chars(s: &Vec<char>, p: &Vec<char>) -> (r: Vec<char>)
    ensures
        r@ == trim_end_pat(s@, p@),
{
    let mut cur = copy_chars(s);
    if p.len() == 0 {
        return cur;
    }
    while has_suffix(&cur, p)
        invariant
            p@.len() > 0,
            trim_end_pat(cur@, p@) == trim_end_pat(s@, p@),
        decreases cur@.len(),
    {
        let n = cur.len() - p.len();
        cur = slice_chars(&cur, 0, n);
    }
    cur
}

/// The lines of `s` as `str::lines` yields them: split at `\n`, a `\r` before
/// the `\n` dropped, and no empty line after a final `\n`.
pub open spec fn lines_of(s: Seq<char>) -> Seq<Seq<char>> {
    let p = split_by(s, CharSet::One('\n'));
    let body = strip_cr_all(p.drop_last());
    if p.last().len() == 0 {
        body
    } else {
        body.push(p.last())
    }
}

pub open spec fn strip_cr_all(p: Seq<Seq<char>>) -> Seq<Seq<char>> {
    p.map_values(|l: Seq<char>| strip_cr(l))
}

pub open spec fn strip_cr(l: Seq<char>) -> Seq<char> {
    if l.len() > 0 && l.last() == '\r' {
        l.drop_last()
    } else {
        l
    }
}

fn strip_cr_chars(l: Vec<char>) -> (r: Vec<char>)
    ensures
        r@ == strip_cr(l@),
{
    let n = l.len();
    if n > 0 && l[n - 1] == '\r' {
        slice_chars(&l, 0, n - 1)
    } else {
        l
    }
}

/// The lines of `v`.
pub fn lines_chars(v: &Vec<char>) -> (r: Vec<Vec<char>>)
    ensures
        pieces_view(r@) == lines_of(v@),
{
    let pieces = split_chars(v, CharSet::One('\n'));
    proof {
        lemma_split_by_nonempty(v@, CharSet::One('\n'));
    }
    let n = pieces.len();
    let ghost pv = pieces_view(pieces@);
    let mut r: Vec<Vec<char>> = Vec::new();
    let mut i: usize = 0;
    while i + 1 < n
        invariant
            n == pieces.len() >= 1,
            pv == pieces_view(pieces@),
            i + 1 <= n,
            pieces_view(r@) == strip_cr_all(pv.drop_last().take(i as int)),
        decreases n - i,
    {
        let line = strip_cr_chars(copy_chars(&pieces[i]));
        assert(line@ == strip_cr(pv[i as int]));
        let ghost prev = pieces_view(r@);
        r.push(line);
        assert(pieces_view(r@) =~= prev.push(line@));
        assert(strip_cr_all(pv.drop_last().take(i + 1)) =~= strip_cr_all(pv.drop_last().take(i as int)).push(strip_cr(pv[i as int])));
        i += 1;
    }
    assert(pv.drop_last().take(i as int) == pv.drop_last());
    if pieces[n - 1].len() > 0 {
        r.push(copy_chars(&pieces[n - 1]));
        assert(pieces_view(r@) =~= lines_of(v@));
    }
    r
}

/// A line holds something other than whitespace.
pub open spec fn is_blank(l: Seq<char>) -> bool {
    forall|i: int| 0 <= i < l.len() ==> is_ws(#[trigger] l[i])
}

/// The words of `s` as `str::split_whitespace` yields them.
pub open spec fn words_of(s: Seq<char>) -> Seq<Seq<char>> {
    nonempty_only(split_by(s, CharSet::Whitespace))
}

/// The non-empty pieces, in order.
pub open spec fn nonempty_only(p: Seq<Seq<char>>) -> Seq<Seq<char>>
    decreases p.len(),
{
    if p.len() == 0 {
        Seq::empty()
    } else if p.last().len() == 0 {
        nonempty_only(p.drop_last())
    } else {
        nonempty_only(p.drop_last()).push(p.last())
    }
}

/// The words of `v`.
pub fn words_chars(v: &Vec<char>) -> (r: Vec<Vec<char>>)
    ensures
        pieces_view(r@) == words_of(v@),
{
    let pieces = split_chars(v, CharSet::Whitespace);
    let ghost pv = pieces_view(pieces@);
    let mut r: Vec<Vec<char>> = Vec::new();
    let mut i: usize = 0;
    while i < pieces.len()
        invariant
            i <= pieces.len(),
            pv == pieces_view(pieces@),
            pieces_view(r@) == nonempty_only(pv.take(i as int)),
        decreases pieces.len() - i,
    {
        assert(pv.take(i + 1).drop_last() == pv.take(i as int));
        if pieces[i].len() > 0 {
            r.push(copy_chars(&pieces[i]));
            assert(pieces_view(r@) =~= nonempty_only(pv.take(i as int)).push(pv[i as int]));
        }
        i += 1;
    }
    assert(pv.take(pieces.len() as int) == pv);
    r
}

/// Two string slices hold the same text.
pub fn same_text(a: &str, b: &str) -> (r: bool)
    ensures
        r == (a@ == b@),
{
    let x = String::from_str(a);
    let y = String::from_str(b);
    x == y
}

/// Two character vectors hold the same characters.
pub fn same_chars(a: &Vec<char>, b: &Vec<char>) -> (r: bool)
    ensures
        r == (a@ == b@),
{
    if a.len() != b.len() {
        return false;
    }
    let mut i: usize = 0;
    while i < a.len()
        invariant
            a.len() == b.len(),
            i <= a.len(),
            forall|j: int| 0 <= j < i ==> a@[j] == b@[j],
        decreases a.len() - i,
    {
        if a[i] != b[i] {
            return false;
        }
        i += 1;
    }
    assert(a@ =~= b@);
    true
}

/// Texts joined with `sep` between each two.
pub open spec fn joined_with(parts: Seq<Seq<char>>, sep: Seq<char>) -> Seq<char>
    decreases parts.len(),
{
    if parts.len() == 0 {
        Seq::empty()
    } else if parts.len() == 1 {
        parts[0]
    } else {
        joined_with(parts.drop_last(), sep) + sep + parts.last()
    }
}

/// The texts of `parts` joined with `sep` between each two (`join`).
pub fn join_texts(parts: &Vec<String>, sep: &str) -> (r: String)
    ensures
        r@ == joined_with(parts.deep_view(), sep@),
{
    let ghost pv = parts.deep_view();
    let mut r = String::new();
    let mut i: usize = 0;
    while i < parts.len()
        invariant
            i <= parts.len(),
            pv == parts.deep_view(),
            r@ == joined_with(pv.take(i as int), sep@),
        decreases parts.len() - i,
    {
        assert(pv.take(i + 1).drop_last() == pv.take(i as int));
        assert(pv[i as int] == parts@[i as int]@);
        if i > 0 {
            r.append(sep);
        } else {
            assert(pv.take(1)[0] == pv[0]);
        }
        r.append(parts[i].as_str());
        i += 1;
    }
    assert(pv.take(parts.len() as int) == pv);
    r
}

/// The pieces of a split hold no separator, and only characters of `s`.
pub proof fn lemma_split_pieces_free(s: Seq<char>, k: CharSet)
    ensures
        forall|i: int, j: int|
            0 <= i < split_by(s, k).len() && 0 <= j < split_by(s, k)[i].len() ==> !in_set(
                k,
                #[trigger] split_by(s, k)[i][j],
            ) && s.contains(split_by(s, k)[i][j]),
    decreases s.len(),
{
    if s.len() > 0 {
        let d = s.drop_last();
        lemma_split_pieces_free(d, k);
        lemma_split_by_nonempty(d, k);
        let init = split_by(d, k);
        assert forall|i: int, j: int|
            0 <= i < split_by(s, k).len() && 0 <= j < split_by(s, k)[i].len() implies !in_set(
                k,
                #[trigger] split_by(s, k)[i][j],
            ) && s.contains(split_by(s, k)[i][j]) by {
            if in_set(k, s.last()) {
                if i < init.len() {
                    assert(d.contains(init[i][j]));
                    let x = choose|x: int| 0 <= x < d.len() && d[x] == init[i][j];
                    assert(s[x] == d[x]);
                }
            } else if i < init.len() - 1 {
                assert(d.contains(init[i][j]));
                let x = choose|x: int| 0 <= x < d.len() && d[x] == init[i][j];
                assert(s[x] == d[x]);
            } else if j < init.last().len() {
                assert(split_by(s, k)[i][j] == init[i][j]);
                assert(d.contains(init[i][j]));
                let x = choose|x: int| 0 <= x < d.len() && d[x] == init[i][j];
                assert(s[x] == d[x]);
            } else {
                assert(split_by(s, k)[i][j] == s.last());
                assert(s[s.len() - 1] == s.last());
            }
        }
    }
}

/// The first piece of a split is the text before the first separator.
pub proof fn lemma_first_piece_len(s: Seq<char>, c: char)
    ensures
        split_by(s, CharSet::One(c))[0].len() <= s.len(),
        split_by(s, CharSet::One(c)).len() >= 2 ==> split_by(s, CharSet::One(c))[0].len() < s.len()
            && s[split_by(s, CharSet::One(c))[0].len() as int] == c,
        split_by(s, CharSet::One(c)).len() >= 2 ==> s.take(split_by(s, CharSet::One(c))[0].len() as int)
            == split_by(s, CharSet::One(c))[0],
        split_by(s, CharSet::One(c)).len() == 1 ==> split_by(s, CharSet::One(c))[0] == s,
    decreases s.len(),
{
    lemma_split_by_nonempty(s, CharSet::One(c));
    if s.len() > 0 {
        let d = s.drop_last();
        lemma_first_piece_len(d, c);
        lemma_split_by_nonempty(d, CharSet::One(c));
        let init = split_by(d, CharSet::One(c));
        if init.len() >= 2 {
            assert(s.take(init[0].len() as int) == d.take(init[0].len() as int));
        } else if s.last() == c {
            assert(d == init[0]);
            assert(s.take(d.len() as int) =~= d);
        } else {
            assert(init[0] == d);
            assert(split_by(s, CharSet::One(c))[0] =~= s);
        }
    }
}

/// The character of a decimal digit.
pub open spec fn digit_char(d: int) -> char {
    if d == 0 {
        '0'
    } else if d == 1 {
        '1'
    } else if d == 2 {
        '2'
    } else if d == 3 {
        '3'
    } else if d == 4 {
        '4'
    } else if d == 5 {
        '5'
    } else if d == 6 {
        '6'
    } else if d == 7 {
        '7'
    } else if d == 8 {
        '8'
    } else {
        '9'
    }
}

/// The decimal digits of `n`, most significant first, without leading
/// zeros ("0" for zero).
pub open spec fn decimal_digits(n: nat) -> Seq<char>
    decreases n,
{
    if n < 10 {
        seq![digit_char(n as int)]
    } else {
        decimal_digits(n / 10) + seq![digit_char((n % 10) as int)]
    }
}

/// An integer in decimal, with a leading `-` when negative (as `Display`
/// and `Debug` write integers).
pub open spec fn decimal_text(i: int) -> Seq<char> {
    if i < 0 {
        seq!['-'] + decimal_digits((-i) as nat)
    } else {
        decimal_digits(i as nat)
    }
}

fn digit_of(d: u64) -> (c: char)
    requires
        d < 10,
    ensures
        c == digit_char(d as int),
{
    match d {
        0 => '0',
        1 => '1',
        2 => '2',
        3 => '3',
        4 => '4',
        5 => '5',
        6 => '6',
        7 => '7',
        8 => '8',
        _ => '9',
    }
}

fn push_digits(n: u64, out: &mut String)
    ensures
        final(out)@ == old(out)@ + decimal_digits(n as nat),
    decreases n,
{
    if n >= 10 {
        push_digits(n / 10, out);
    }
    push_char(out, digit_of(n % 10));
}

/// `n` in decimal.
pub fn decimal_of(n: i32) -> (s: String)
    ensures
        s@ == decimal_text(n as int),
{
    let mut s = String::new();
    let wide = n as i64;
    if wide < 0 {
        push_char(&mut s, '-');
        push_digits((-wide) as u64, &mut s);
    } else {
        push_digits(wide as u64, &mut s);
    }
    s
}

/// A split into exactly two pieces puts back together around the one
/// separator.
pub proof fn lemma_split_two(s: Seq<char>, c: char)
    requires
        split_by(s, CharSet::One(c)).len() == 2,
    ensures
        s == split_by(s, CharSet::One(c))[0] + seq![c] + split_by(s, CharSet::One(c))[1],
    decreases s.len(),
{
    if s.len() > 0 {
        let d = s.drop_last();
        lemma_split_by_nonempty(d, CharSet::One(c));
        lemma_first_piece_len(d, c);
        let init = split_by(d, CharSet::One(c));
        if s.last() == c {
            assert(init.len() == 1);
            assert(s =~= init[0] + seq![c] + Seq::<char>::empty());
        } else {
            lemma_split_two(d, c);
            assert(s =~= d.push(s.last()));
            assert(split_by(s, CharSet::One(c))[1] == init[1].push(s.last()));
            assert(split_by(s, CharSet::One(c))[0] == init[0]);
            assert(s =~= init[0] + seq![c] + init[1].push(s.last()));
        }
    }
}

/// Trimming every trailing repetition leaves none.
pub proof fn lemma_trim_end_pat_done(s: Seq<char>, p: Seq<char>)
    requires
        p.len() > 0,
    ensures
        !ends_with(trim_end_pat(s, p), p),
    decreases s.len(),
{
    if ends_with(s, p) {
        lemma_trim_end_pat_done(s.take(s.len() - p.len()), p);
    }
}

/// A text whose two ends are outside `k` is its own trim.
pub proof fn lemma_trim_keeps(s: Seq<char>, k: CharSet)
    requires
        s.len() > 0,
        !in_set(k, s[0]),
        !in_set(k, s.last()),
    ensures
        trim_by(s, k) == s,
{
}

/// A text without the separator is a single piece.
pub proof fn lemma_split_none(x: Seq<char>, c: char)
    requires
        forall|i: int| 0 <= i < x.len() ==> x[i] != c,
    ensures
        split_by(x, CharSet::One(c)) == seq![x],
    decreases x.len(),
{
    if x.len() > 0 {
        let d = x.drop_last();
        lemma_split_none(d, c);
        assert(x =~= d.push(x.last()));
    } else {
        assert(x =~= Seq::<char>::empty());
    }
}

/// Two texts without the separator, joined by it, split back into the two.
pub proof fn lemma_split_around(x: Seq<char>, y: Seq<char>, c: char)
    requires
        forall|i: int| 0 <= i < x.len() ==> x[i] != c,
        forall|i: int| 0 <= i < y.len() ==> y[i] != c,
    ensures
        split_by(x + seq![c] + y, CharSet::One(c)) == seq![x, y],
    decreases y.len(),
{
    let s = x + seq![c] + y;
    if y.len() == 0 {
        lemma_split_none(x, c);
        assert(s.drop_last() =~= x);
        assert(s.last() == c);
        assert(y =~= Seq::<char>::empty());
        assert(seq![x].push(Seq::<char>::empty()) =~= seq![x, y]);
    } else {
        let d = y.drop_last();
        lemma_split_around(x, d, c);
        assert(s.drop_last() =~= x + seq![c] + d);
        assert(s.last() == y.last());
        assert(d.push(y.last()) =~= y);
        assert(seq![x, d].update(1, d.push(y.last())) =~= seq![x, y]);
    }
}

} // verus!
