//! Deep cleaning: what the download cache holds, and which leftover data
//! folders the Hub may delete.
use crate::glob::{ascii_lowercase, is_ascii_text, lowercased, to_lower};
use crate::text::{chars_of, has_prefix, starts_with};
use vstd::prelude::*;
use vstd::string::*;

verus! {

/// How many files a folder holds, and their bytes.
#[derive(Clone, Copy, Debug)]
pub struct CacheInfo {
    pub count: u64,
    pub bytes: u64,
}

/// A data folder left behind by an app that is no longer installed.
#[derive(Clone, Debug)]
pub struct LeftoverDir {
    pub path: String,
    pub bytes: u64,
}

/// The number of files among the entries of a listing, each entry told by
/// whether it is a file and its size.
pub open spec fn files_count(entries: Seq<(bool, u64)>) -> int
    decreases entries.len(),
{
    if entries.len() == 0 {
        0
    } else {
        files_count(entries.drop_last()) + if entries.last().0 {
            1int
        } else {
            0int
        }
    }
}

/// The bytes of the files among the entries of a listing.
pub open spec fn files_bytes(entries: Seq<(bool, u64)>) -> int
    decreases entries.len(),
{
    if entries.len() == 0 {
        0
    } else {
        files_bytes(entries.drop_last()) + if entries.last().0 {
            entries.last().1 as int
        } else {
            0int
        }
    }
}

proof fn lemma_files_prefix(entries: Seq<(bool, u64)>, i: int)
    requires
        0 <= i <= entries.len(),
    ensures
        files_bytes(entries.take(i)) <= files_bytes(entries),
        files_count(entries.take(i)) <= i,
    decreases entries.len(),
{
    if i < entries.len() {
        assert(entries.drop_last().take(i) == entries.take(i));
        lemma_files_prefix(entries.drop_last(), i);
    } else {
        assert(entries.take(i) == entries);
        if i > 0 {
            lemma_files_prefix(entries.drop_last(), i - 1);
            assert(entries.drop_last().take(i - 1) == entries.drop_last());
        }
    }
}

/// Counts the files of a listing and adds up their sizes (folders and
/// other entries are passed over).
pub fn tally_files(entries: &[(bool, u64)]) -> (c: CacheInfo)
    requires
        files_bytes(entries@) <= u64::MAX,
    ensures
        c.count == files_count(entries@),
        c.bytes == files_bytes(entries@),
{
    let mut count: u64 = 0;
    let mut bytes: u64 = 0;
    let mut i: usize = 0;
    while i < entries.len()
        invariant
            i <= entries.len(),
            files_bytes(entries@) <= u64::MAX,
            count == files_count(entries@.take(i as int)),
            bytes == files_bytes(entries@.take(i as int)),
        decreases entries.len() - i,
    {
        let (is_file, size) = entries[i];
        proof {
            assert(entries@.take(i + 1).drop_last() == entries@.take(i as int));
            lemma_files_prefix(entries@, i + 1);
        }
        if is_file {
            count = count + 1;
            bytes = bytes + size;
        }
        i += 1;
    }
    assert(entries@.take(entries.len() as int) == entries@);
    CacheInfo { count, bytes }
}

/// A path separator (`\` on Windows, `/` everywhere).
pub open spec fn is_separator(c: char) -> bool {
    c == '\\' || c == '/'
}

/// A component of `t` ends at `j`: the text ends there, or a separator
/// stands there.
pub open spec fn ends_component(t: Seq<char>, j: int) -> bool {
    j == t.len() || (0 <= j < t.len() && is_separator(t[j]))
}

/// A `.` or `..` component of `t` starts at `k`, at or after `from`.
pub open spec fn dot_component_at(t: Seq<char>, from: int, k: int) -> bool {
    &&& from <= k < t.len()
    &&& (k == from || is_separator(t[k - 1]))
    &&& t[k] == '.'
    &&& (ends_component(t, k + 1) || (k + 1 < t.len() && t[k + 1] == '.' && ends_component(t, k + 2)))
}

/// The (already lowercased) path `t` lies strictly inside the base `b`: it
/// starts with the base, at the end of one of its components; what follows
/// holds something other than separators, so the base itself is never
/// inside; and what follows has no `.` or `..` component, so nothing that
/// climbs back out of the base is inside. An empty base holds nothing.
pub open spec fn within_text(t: Seq<char>, b: Seq<char>) -> bool {
    &&& b.len() > 0
    &&& starts_with(t, b)
    &&& (is_separator(b.last()) || (t.len() > b.len() && is_separator(t[b.len() as int])))
    &&& exists|k: int| b.len() <= k < t.len() && !is_separator(#[trigger] t[k])
    &&& forall|k: int| !#[trigger] dot_component_at(t, b.len() as int, k)
}

/// `path` lies strictly inside `base`, compared as text without regard to
/// case (Windows paths ignore it): `within_text` on both lowercased.
pub open spec fn within_base(path: Seq<char>, base: Seq<char>) -> bool {
    within_text(lowercased(path), lowercased(base))
}

/// Whether `t` holds something other than a separator from `from` on.
fn more_than_separators(t: &Vec<char>, from: usize) -> (r: bool)
    ensures
        r == exists|k: int| from <= k < t.len() && !is_separator(#[trigger] t@[k]),
{
    let mut k: usize = from;
    while k < t.len()
        invariant
            from <= k,
            forall|j: int| from <= j < k ==> is_separator(#[trigger] t@[j]),
        decreases t.len() - k,
    {
        if t[k] != '\\' && t[k] != '/' {
            assert(!is_separator(t@[k as int]));
            return true;
        }
        k += 1;
    }
    false
}

fn sep_char(c: char) -> (b: bool)
    ensures
        b == is_separator(c),
{
    c == '\\' || c == '/'
}

fn component_ends(t: &Vec<char>, j: usize) -> (b: bool)
    ensures
        b == ends_component(t@, j as int),
{
    j == t.len() || (j < t.len() && sep_char(t[j]))
}

/// Whether `t` has no `.` or `..` component from `from` on.
fn no_dot_components(t: &Vec<char>, from: usize) -> (r: bool)
    ensures
        r == forall|k: int| !#[trigger] dot_component_at(t@, from as int, k),
{
    let mut k: usize = from;
    while k < t.len()
        invariant
            from <= k,
            forall|j: int| j < k ==> !#[trigger] dot_component_at(t@, from as int, j),
        decreases t.len() - k,
    {
        if (k == from || sep_char(t[k - 1])) && t[k] == '.' && (component_ends(t, k + 1) || (k + 1
            < t.len() && t[k + 1] == '.' && component_ends(t, k + 2))) {
            assert(dot_component_at(t@, from as int, k as int));
            return false;
        }
        k += 1;
    }
    true
}

/// `path` lies strictly inside one of the bases.
pub open spec fn within_any(path: Seq<char>, bases: Seq<String>) -> bool {
    exists|i: int| 0 <= i < bases.len() && within_base(path, #[trigger] bases[i]@)
}

/// Every text is ASCII.
pub open spec fn all_ascii(bases: Seq<String>) -> bool {
    forall|i: int| 0 <= i < bases.len() ==> is_ascii_text(#[trigger] bases[i]@)
}

pub fn path_is_within_bases(path: &str, bases: &[String]) -> (b: bool)
    ensures
        b == within_any(path@, bases@),
        is_ascii_text(path@) && all_ascii(bases@) ==> b == exists|i: int|
            0 <= i < bases.len() && within_text(
                ascii_lowercase(path@),
                ascii_lowercase(#[trigger] bases@[i]@),
            ),
{
    let target = to_lower(path);
    let t = chars_of(target.as_str());
    let mut i: usize = 0;
    while i < bases.len()
        invariant
            i <= bases.len(),
            t@ == lowercased(path@),
            is_ascii_text(path@) ==> t@ == ascii_lowercase(path@),
            forall|j: int| 0 <= j < i ==> !within_base(path@, #[trigger] bases@[j]@),
            forall|j: int|
                0 <= j < i ==> is_ascii_text(#[trigger] bases@[j]@) ==> lowercased(bases@[j]@)
                    == ascii_lowercase(bases@[j]@),
        decreases bases.len() - i,
    {
        let base = to_lower(bases[i].as_str());
        let b = chars_of(base.as_str());
        if b.len() > 0 && has_prefix(&t, &b) && (sep_char(b[b.len() - 1]) || (t.len() > b.len()
            && sep_char(t[b.len()]))) && more_than_separators(&t, b.len()) && no_dot_components(
            &t,
            b.len(),
        ) {
            assert(within_base(path@, bases@[i as int]@));
            return true;
        }
        i += 1;
    }
    false
}

/// The refusal of a deletion outside the user's data folders.
pub open spec fn leftover_refusal(path: Seq<char>) -> Seq<char> {
    "Caminho fora do AppData do usuário, recusado: "@ + path
}

/// A leftover folder may be deleted only inside one of the user's data
/// folders (`bases`); any other path is refused.
pub fn check_leftover_path(path: &str, bases: &[String]) -> (r: Result<(), String>)
    ensures
        within_any(path@, bases@) ==> r is Ok,
        !within_any(path@, bases@) ==> (r matches Err(e) && e@ == leftover_refusal(path@)),
{
    if path_is_within_bases(path, bases) {
        Ok(())
    } else {
        let mut e = String::from_str("Caminho fora do AppData do usuário, recusado: ");
        e.append(path);
        Err(e)
    }
}

/// A data folder itself is never a target: only what lies strictly inside
/// one may be deleted.
pub proof fn law_base_itself_is_never_inside(base: Seq<char>)
    ensures
        !within_text(base, base),
{
}

/// The base followed only by separators is still the base: never inside.
pub proof fn law_separators_do_not_enter(base: Seq<char>, seps: Seq<char>)
    requires
        forall|i: int| 0 <= i < seps.len() ==> is_separator(#[trigger] seps[i]),
    ensures
        !within_text(base + seps, base),
{
    let t = base + seps;
    assert forall|k: int| base.len() <= k < t.len() implies is_separator(#[trigger] t[k]) by {
        assert(t[k] == seps[k - base.len()]);
    }
}

/// A path that climbs back out with a `.` or `..` component after the base
/// is never inside it, whatever follows.
pub proof fn law_climbing_out_is_refused(t: Seq<char>, base: Seq<char>, k: int)
    requires
        dot_component_at(t, base.len() as int, k),
    ensures
        !within_text(t, base),
{
}

/// Case does not matter: two paths that differ only in case are inside the
/// same bases.
pub proof fn law_case_does_not_matter(p1: Seq<char>, p2: Seq<char>, bases: Seq<String>)
    requires
        lowercased(p1) == lowercased(p2),
    ensures
        within_any(p1, bases) == within_any(p2, bases),
{
    if within_any(p1, bases) {
        let i = choose|i: int| 0 <= i < bases.len() && within_base(p1, #[trigger] bases[i]@);
        assert(within_base(p2, bases[i]@));
    }
    if within_any(p2, bases) {
        let i = choose|i: int| 0 <= i < bases.len() && within_base(p2, #[trigger] bases[i]@);
        assert(within_base(p1, bases[i]@));
    }
}

} // verus!
