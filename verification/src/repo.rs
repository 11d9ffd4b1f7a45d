//! The user's own repositories: apps from outside the catalogue, added by
//! their GitHub address.
use crate::glob::{lowercased, to_lower};
use crate::lists::{select, split_by_flags};
use crate::release::{asset_names, guess_assets, linux_patterns, picked_pattern, win_patterns, ReleaseInfo};
use crate::text::{
    ascii_lower, char_ascii_lower, char_is_alnum, chars_of, ends_with, has_prefix, is_ascii_alnum,
    lemma_split_around, lemma_split_two, lemma_trim_end_pat_done, lemma_trim_keeps, pieces_view, split_by, split_chars, starts_with,
    strip_prefix_chars, strip_prefix_or_keep, string_of, trim_by, trim_chars, trim_end_pat,
    trim_end_pat_chars, CharSet,
};
use vstd::prelude::*;
use vstd::string::*;

verus! {

#[derive(Clone, Debug)]
pub struct CustomApp {
    pub id: String,
    /// Starts as the repository's name; becomes the registry's display name
    /// after the first install.
    pub name: String,
    pub repo: String,
    pub win_asset: String,
    pub linux_asset: String,
    /// The executable's file name, found after the first install.
    pub exe: String,
}

/// The address with its decorations removed, but for a trailing `.git`:
/// whitespace, the scheme, `www.`, `github.com/` and slashes at the ends.
pub open spec fn undecorated(input: Seq<char>) -> Seq<char> {
    let s0 = trim_by(input, CharSet::Whitespace);
    let s1 = if starts_with(s0, "https://"@) {
        strip_prefix_or_keep(s0, "https://"@)
    } else {
        strip_prefix_or_keep(s0, "http://"@)
    };
    let s2 = strip_prefix_or_keep(s1, "www."@);
    let s3 = strip_prefix_or_keep(s2, "github.com/"@);
    trim_by(s3, CharSet::One('/'))
}

/// The address with its decorations removed: whitespace, the scheme, `www.`,
/// `github.com/`, slashes at the ends and every trailing `.git`.
pub open spec fn repo_text(input: Seq<char>) -> Seq<char> {
    trim_end_pat(undecorated(input), ".git"@)
}

/// An owner or repository name: not empty, ASCII letters, digits, `-`, `_`
/// and `.` only.
pub open spec fn is_repo_part(p: Seq<char>) -> bool {
    p.len() > 0 && forall|i: int| 0 <= i < p.len() ==> is_repo_part_char(#[trigger] p[i])
}

pub open spec fn is_repo_part_char(c: char) -> bool {
    is_ascii_alnum(c) || c == '-' || c == '_' || c == '.'
}

/// "owner/repo" out of "owner/repo", a full GitHub address, or either with
/// a trailing `/` or `.git`; none for anything else.
pub open spec fn parsed_repo(input: Seq<char>) -> Option<Seq<char>> {
    let parts = split_by(repo_text(input), CharSet::One('/'));
    if parts.len() == 2 && is_repo_part(parts[0]) && is_repo_part(parts[1]) {
        Some(parts[0] + seq!['/'] + parts[1])
    } else {
        None
    }
}

fn repo_part_chars(p: &Vec<char>) -> (b: bool)
    ensures
        b == is_repo_part(p@),
{
    if p.len() == 0 {
        return false;
    }
    let mut i: usize = 0;
    while i < p.len()
        invariant
            i <= p.len(),
            forall|j: int| 0 <= j < i ==> is_repo_part_char(#[trigger] p@[j]),
        decreases p.len() - i,
    {
        let c = p[i];
        if !(char_is_alnum(c) || c == '-' || c == '_' || c == '.') {
            assert(!is_repo_part_char(p@[i as int]));
            return false;
        }
        i += 1;
    }
    true
}

pub fn parse_repo(input: &str) -> (r: Option<String>)
    ensures
        match r {
            Some(s) => parsed_repo(input@) == Some(s@),
            None => parsed_repo(input@) is None,
        },
{
    let v = chars_of(input);
    let s0 = trim_chars(&v, CharSet::Whitespace);
    let https = chars_of("https://");
    let http = chars_of("http://");
    let s1 = if has_prefix(&s0, &https) {
        strip_prefix_chars(&s0, &https)
    } else {
        strip_prefix_chars(&s0, &http)
    };
    let www = chars_of("www.");
    let s2 = strip_prefix_chars(&s1, &www);
    let gh = chars_of("github.com/");
    let s3 = strip_prefix_chars(&s2, &gh);
    let s4 = trim_chars(&s3, CharSet::One('/'));
    let git = chars_of(".git");
    let s5 = trim_end_pat_chars(&s4, &git);
    assert(s5@ == repo_text(input@));
    let parts = split_chars(&s5, CharSet::One('/'));
    if parts.len() != 2 {
        return None;
    }
    assert(parts@[0]@ == pieces_view(parts@)[0]);
    assert(parts@[1]@ == pieces_view(parts@)[1]);
    if !repo_part_chars(&parts[0]) || !repo_part_chars(&parts[1]) {
        return None;
    }
    let mut out = string_of(&parts[0]);
    out.append("/");
    let tail = string_of(&parts[1]);
    out.append(tail.as_str());
    proof {
        reveal_strlit("/");
    }
    assert(out@ =~= parts@[0]@ + seq!['/'] + parts@[1]@);
    Some(out)
}

/// Two texts are equal up to ASCII case (`str::eq_ignore_ascii_case`).
pub open spec fn same_ignoring_ascii_case(a: Seq<char>, b: Seq<char>) -> bool {
    a.len() == b.len() && forall|i: int| 0 <= i < a.len() ==> ascii_lower(#[trigger] a[i]) == ascii_lower(b[i])
}

fn eq_ignore_ascii_case(a: &str, b: &str) -> (r: bool)
    ensures
        r == same_ignoring_ascii_case(a@, b@),
{
    let x = chars_of(a);
    let y = chars_of(b);
    if x.len() != y.len() {
        return false;
    }
    let mut i: usize = 0;
    while i < x.len()
        invariant
            x@ == a@,
            y@ == b@,
            x.len() == y.len(),
            i <= x.len(),
            forall|j: int| 0 <= j < i ==> ascii_lower(#[trigger] x@[j]) == ascii_lower(y@[j]),
        decreases x.len() - i,
    {
        if char_ascii_lower(x[i]) != char_ascii_lower(y[i]) {
            return false;
        }
        i += 1;
    }
    true
}

/// Whether `repo` is already in the list (ASCII case ignored).
pub fn repo_listed(list: &[CustomApp], repo: &str) -> (b: bool)
    ensures
        b == exists|i: int|
            0 <= i < list.len() && same_ignoring_ascii_case(#[trigger] list@[i].repo@, repo@),
{
    let mut i: usize = 0;
    while i < list.len()
        invariant
            i <= list.len(),
            forall|j: int| 0 <= j < i ==> !same_ignoring_ascii_case(#[trigger] list@[j].repo@, repo@),
        decreases list.len() - i,
    {
        if eq_ignore_ascii_case(list[i].repo.as_str(), repo) {
            return true;
        }
        i += 1;
    }
    false
}

/// The id-safe form of a text: ASCII letters and digits kept, every other
/// character replaced by `-`.
pub open spec fn slug_of(s: Seq<char>) -> Seq<char> {
    s.map_values(|c: char| if is_ascii_alnum(c) { c } else { '-' })
}

fn slug_chars(v: &Vec<char>) -> (r: Vec<char>)
    ensures
        r@ == slug_of(v@),
{
    let mut r: Vec<char> = Vec::new();
    let mut i: usize = 0;
    while i < v.len()
        invariant
            i <= v.len(),
            r@ == slug_of(v@.take(i as int)),
        decreases v.len() - i,
    {
        let c = v[i];
        if char_is_alnum(c) {
            r.push(c);
        } else {
            r.push('-');
        }
        assert(r@ =~= slug_of(v@.take(i + 1)));
        i += 1;
    }
    assert(v@.take(v.len() as int) == v@);
    r
}

/// The name a new entry starts with: the part after the first `/`, or the
/// whole text when there is none.
pub open spec fn repo_short_name(repo: Seq<char>) -> Seq<char> {
    let parts = split_by(repo, CharSet::One('/'));
    if parts.len() >= 2 {
        parts[1]
    } else {
        repo
    }
}

/// A new entry for `repo` ("owner/name") with the asset patterns found for
/// it: id `custom-<slug of the lowercased repo>`, the repository's name as
/// name, and no executable yet.
pub fn new_custom_app(repo: String, win_asset: String, linux_asset: String) -> (c: CustomApp)
    ensures
        c.id@ == "custom-"@ + slug_of(lowercased(repo@)),
        c.name@ == repo_short_name(repo@),
        c.repo == repo,
        c.win_asset == win_asset,
        c.linux_asset == linux_asset,
        c.exe@.len() == 0,
{
    let lower = to_lower(repo.as_str());
    let lv = chars_of(lower.as_str());
    let slug = slug_chars(&lv);
    let mut id = String::from_str("custom-");
    let slug_s = string_of(&slug);
    id.append(slug_s.as_str());
    let rv = chars_of(repo.as_str());
    let parts = split_chars(&rv, CharSet::One('/'));
    let name = if parts.len() >= 2 {
        assert(parts@[1]@ == pieces_view(parts@)[1]);
        string_of(&parts[1])
    } else {
        repo.clone()
    };
    CustomApp { id, name, repo, win_asset, linux_asset, exe: String::new() }
}

/// The entry for a repository whose latest release was fetched: refused
/// with the message below when the release has neither a Windows installer
/// nor an AppImage.
pub fn custom_app_from_release(repo: String, release: &ReleaseInfo) -> (r: Result<CustomApp, String>)
    ensures
        ({
            let names = asset_names(release.assets@);
            let win = picked_pattern(win_patterns(), names);
            let linux = picked_pattern(linux_patterns(), names);
            match r {
                Ok(c) => !(win.len() == 0 && linux.len() == 0) && c.win_asset@ == win
                    && c.linux_asset@ == linux && c.repo == repo && c.id@ == "custom-"@ + slug_of(
                    lowercased(repo@),
                ) && c.name@ == repo_short_name(repo@) && c.exe@.len() == 0,
                Err(msg) => win.len() == 0 && linux.len() == 0 && msg@ == "A release "@
                    + release.tag@ + " de "@ + repo@
                    + " não tem instalador .exe nem AppImage nos assets"@,
            }
        }),
{
    let (win, linux) = guess_assets(release.assets.as_slice());
    if win.as_str().unicode_len() == 0 && linux.as_str().unicode_len() == 0 {
        let mut msg = String::from_str("A release ");
        msg.append(release.tag.as_str());
        msg.append(" de ");
        msg.append(repo.as_str());
        msg.append(" não tem instalador .exe nem AppImage nos assets");
        return Err(msg);
    }
    Ok(new_custom_app(repo, win, linux))
}

/// The list without the entry `id` (the app itself is not uninstalled).
pub open spec fn id_flags(list: Seq<CustomApp>, id: Seq<char>) -> Seq<bool> {
    Seq::new(list.len(), |i: int| list[i].id@ == id)
}

pub fn without_custom(list: Vec<CustomApp>, id: &str) -> (r: Vec<CustomApp>)
    ensures
        r@ == select(list@, id_flags(list@, id@), false),
{
    let key = String::from_str(id);
    let mut flags: Vec<bool> = Vec::new();
    let mut i: usize = 0;
    while i < list.len()
        invariant
            i <= list.len(),
            key@ == id@,
            flags@.len() == i,
            forall|j: int| 0 <= j < i ==> flags@[j] == (list@[j].id@ == id@),
        decreases list.len() - i,
    {
        flags.push(list[i].id == key);
        i += 1;
    }
    assert(flags@ =~= id_flags(list@, id@));
    let (kept, _) = split_by_flags(list, &flags);
    kept
}

/// The repository to add from what the user pasted: refused when it is no
/// GitHub repository address, or when the list already has it (compared
/// without regard to ASCII case).
pub fn repo_to_add(input: &str, list: &[CustomApp]) -> (r: Result<String, String>)
    ensures
        match parsed_repo(input@) {
            None => r matches Err(e) && e@
                == "Endereço inválido — cole o link do repositório (github.com/dono/repo)"@,
            Some(repo) => if exists|i: int|
                0 <= i < list.len() && same_ignoring_ascii_case(#[trigger] list@[i].repo@, repo) {
                r matches Err(e) && e@ == "Esse repositório já está na lista"@
            } else {
                r matches Ok(x) && x@ == repo
            },
        },
{
    match parse_repo(input) {
        None => Err(String::from_str("Endereço inválido — cole o link do repositório (github.com/dono/repo)")),
        Some(repo) => {
            if repo_listed(list, repo.as_str()) {
                Err(String::from_str("Esse repositório já está na lista"))
            } else {
                Ok(repo)
            }
        },
    }
}

/// A parsed repository parses back to itself from the address forms the
/// parser accepts: the full GitHub address, and `github.com/` before it
/// with `.git` after it.
pub proof fn law_parse_repo_round_trip(x: Seq<char>, r: Seq<char>)
    requires
        parsed_repo(x) == Some(r),
    ensures
        parsed_repo("https://github.com/"@ + r) == Some(r),
        parsed_repo("github.com/"@ + r + ".git"@) == Some(r),
{
    reveal_strlit("https://github.com/");
    reveal_strlit("https://");
    reveal_strlit("http://");
    reveal_strlit("www.");
    reveal_strlit("github.com/");
    reveal_strlit(".git");
    let y = repo_text(x);
    let parts = split_by(y, CharSet::One('/'));
    lemma_split_two(y, '/');
    assert(y == r);
    lemma_trim_end_pat_done(undecorated(x), ".git"@);
    assert(!ends_with(r, ".git"@));
    // The ends of `r` are characters of the two parts: no whitespace, no `/`.
    assert(r[0] == parts[0][0]);
    assert(r.last() == parts[1].last());
    assert(is_repo_part_char(parts[0][0]));
    assert(is_repo_part_char(parts[1][parts[1].len() - 1]));
    assert(r.len() > 0);
    // The full address.
    let a = "https://github.com/"@ + r;
    assert(a[0] == 'h');
    assert(a.last() == r.last());
    lemma_trim_keeps(a, CharSet::Whitespace);
    assert(a.take(8) =~= "https://"@);
    let a1 = a.skip(8);
    assert(a1 =~= "github.com/"@ + r);
    assert(a1[0] == 'g');
    assert(!starts_with(a1, "www."@)) by {
        if starts_with(a1, "www."@) {
            assert(a1.take(4)[0] == 'w');
        }
    }
    assert(a1.take(11) =~= "github.com/"@);
    assert(a1.skip(11) =~= r);
    lemma_trim_keeps(r, CharSet::One('/'));
    assert(repo_text(a) == r);
    // With `github.com/` before and `.git` after.
    let b = "github.com/"@ + r + ".git"@;
    assert(b[0] == 'g');
    assert(b.last() == 't');
    lemma_trim_keeps(b, CharSet::Whitespace);
    assert(!starts_with(b, "https://"@)) by {
        if starts_with(b, "https://"@) {
            assert(b.take(8)[0] == 'h');
        }
    }
    assert(!starts_with(b, "http://"@)) by {
        if starts_with(b, "http://"@) {
            assert(b.take(7)[0] == 'h');
        }
    }
    assert(!starts_with(b, "www."@)) by {
        if starts_with(b, "www."@) {
            assert(b.take(4)[0] == 'w');
        }
    }
    assert(b.take(11) =~= "github.com/"@);
    let b3 = b.skip(11);
    assert(b3 =~= r + ".git"@);
    assert(b3[0] == r[0]);
    assert(b3.last() == 't');
    lemma_trim_keeps(b3, CharSet::One('/'));
    assert(ends_with(b3, ".git"@)) by {
        assert(b3.skip(b3.len() - 4) =~= ".git"@);
    }
    assert(b3.take(b3.len() - 4) =~= r);
    assert(repo_text(b) == r);
}

/// Law: every "owner/repo" whose two parts are not empty and hold only ASCII
/// letters, digits, `-`, `_` and `.` is accepted as it stands, alone or after
/// `https://github.com/`. Left out are the texts that the decorations
/// reach: an owner that starts with `www.` or is `github.com`, and a
/// repository name that ends in `.git`.
pub proof fn law_owner_repo_is_accepted(a: Seq<char>, b: Seq<char>)
    requires
        a.len() > 0,
        b.len() > 0,
        forall|i: int|
            0 <= i < a.len() ==> {
                let c = #[trigger] a[i];
                ||| ('a' <= c && c <= 'z')
                ||| ('A' <= c && c <= 'Z')
                ||| ('0' <= c && c <= '9')
                ||| c == '-'
                ||| c == '_'
                ||| c == '.'
            },
        forall|i: int|
            0 <= i < b.len() ==> {
                let c = #[trigger] b[i];
                ||| ('a' <= c && c <= 'z')
                ||| ('A' <= c && c <= 'Z')
                ||| ('0' <= c && c <= '9')
                ||| c == '-'
                ||| c == '_'
                ||| c == '.'
            },
        !starts_with(a, "www."@),
        a != "github.com"@,
        !ends_with(b, ".git"@),
    ensures
        parsed_repo(a + "/"@ + b) == Some(a + "/"@ + b),
        parsed_repo("https://github.com/"@ + a + "/"@ + b) == Some(a + "/"@ + b),
{
    reveal_strlit("/");
    reveal_strlit("https://");
    reveal_strlit("http://");
    reveal_strlit("www.");
    reveal_strlit("github.com/");
    reveal_strlit("github.com");
    reveal_strlit(".git");
    let s = a + seq!['/'] + b;
    assert("/"@ =~= seq!['/']);
    assert(a + "/"@ + b == s);
    let n = a.len() as int;
    assert forall|i: int| 0 <= i < n implies #[trigger] s[i] == a[i] by {}
    assert(s[n] == '/');
    assert forall|i: int| 0 <= i < b.len() implies #[trigger] s[n + 1 + i] == b[i] by {}
    assert(s.last() == b[b.len() - 1]);
    // Whitespace and slashes at the ends.
    lemma_trim_keeps(s, CharSet::Whitespace);
    lemma_trim_keeps(s, CharSet::One('/'));
    // No scheme: a scheme has `:` where `s` has a part's character or `/`.
    assert(!starts_with(s, "https://"@)) by {
        if starts_with(s, "https://"@) {
            assert(s.take(8)[5] == s[5]);
            if 5 > n {
                assert(s[5] == b[5 - n - 1]);
            }
        }
    }
    assert(!starts_with(s, "http://"@)) by {
        if starts_with(s, "http://"@) {
            assert(s.take(7)[4] == s[4]);
            if 4 > n {
                assert(s[4] == b[4 - n - 1]);
            }
        }
    }
    // No `www.`: either the owner would start with it, or `/` would stand in it.
    assert(!starts_with(s, "www."@)) by {
        if starts_with(s, "www."@) {
            if n >= 4 {
                assert(a.take(4) =~= s.take(4));
            } else {
                assert(s.take(4)[n] == s[n]);
            }
        }
    }
    // No `github.com/`: its one `/` would have to be the separator.
    assert(!starts_with(s, "github.com/"@)) by {
        if starts_with(s, "github.com/"@) {
            assert(s.take(11)[10] == s[10]);
            if n > 10 {
                assert(a[10] == s[10]);
            } else if n < 10 {
                assert(s.take(11)[n] == s[n]);
            } else {
                assert(a =~= s.take(10));
                assert(s.take(10) =~= "github.com"@);
            }
        }
    }
    assert(undecorated(s) == s);
    // No trailing `.git`: the name would end in it, or `/` would stand in it.
    assert(!ends_with(s, ".git"@)) by {
        if ends_with(s, ".git"@) {
            let m = b.len() as int;
            if m >= 4 {
                assert(b.skip(m - 4) =~= s.skip(s.len() - 4));
            } else {
                assert(s.skip(s.len() - 4)[3 - m] == s[n]);
            }
        }
    }
    assert(repo_text(s) == s);
    assert forall|i: int| 0 <= i < a.len() implies a[i] != '/' by {}
    assert forall|i: int| 0 <= i < b.len() implies b[i] != '/' by {}
    lemma_split_around(a, b, '/');
    assert(is_repo_part(a));
    assert(is_repo_part(b));
    assert(parsed_repo(s) == Some(s));
    law_parse_repo_round_trip(s, s);
    assert("https://github.com/"@ + a + "/"@ + b =~= "https://github.com/"@ + s);
}

/// Law: what is accepted is always "owner/repo": one `/` with text on both
/// sides, and every other character an ASCII letter, a digit, `-`, `_` or
/// `.`.
pub proof fn law_accepted_repo_is_owner_slash_name(input: Seq<char>, r: Seq<char>)
    requires
        parsed_repo(input) == Some(r),
    ensures
        exists|k: int|
            0 < k < r.len() - 1 && r[k] == '/' && forall|i: int|
                0 <= i < r.len() && i != k ==> {
                    let c = #[trigger] r[i];
                    ||| ('a' <= c && c <= 'z')
                    ||| ('A' <= c && c <= 'Z')
                    ||| ('0' <= c && c <= '9')
                    ||| c == '-'
                    ||| c == '_'
                    ||| c == '.'
                },
{
    let parts = split_by(repo_text(input), CharSet::One('/'));
    let a = parts[0];
    let b = parts[1];
    assert(r == a + seq!['/'] + b);
    let k = a.len() as int;
    assert(r[k] == '/');
    assert forall|i: int| 0 <= i < r.len() && i != k implies {
        let c = #[trigger] r[i];
        ||| ('a' <= c && c <= 'z')
        ||| ('A' <= c && c <= 'Z')
        ||| ('0' <= c && c <= '9')
        ||| c == '-'
        ||| c == '_'
        ||| c == '.'
    } by {
        if i < k {
            assert(r[i] == a[i]);
            assert(is_repo_part_char(a[i]));
        } else {
            assert(r[i] == b[i - k - 1]);
            assert(is_repo_part_char(b[i - k - 1]));
        }
    }
}

} // verus!
