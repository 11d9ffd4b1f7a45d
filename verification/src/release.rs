//! GitHub releases: what a release holds, when a cached answer is still
//! good, and which asset a glob picks.
use crate::glob::{glob_match, glob_matches, lemma_glob_star_suffix, lowercased, star_free};
use crate::text::{char_is_alnum, chars_of, ends_with, is_ascii_alnum, string_of};
use base64::Engine;
use vstd::prelude::*;
use vstd::string::*;

verus! {

#[derive(Clone, Debug)]
pub struct AssetInfo {
    pub name: String,
    pub url: String,
    pub size: u64,
}

#[derive(Clone, Debug)]
pub struct ReleaseInfo {
    pub tag: String,
    pub version: String,
    pub assets: Vec<AssetInfo>,
}

/// A release as the local cache keeps it, with the time it was fetched.
#[derive(Clone, Debug)]
pub struct CachedRelease {
    pub fetched_at: u64,
    pub release: ReleaseInfo,
}

/// How long a cached release answers without asking GitHub again: the
/// anonymous API allows only 60 requests an hour.
pub const RELEASE_CACHE_TTL_SECS: u64 = 30 * 60;

/// The seconds since the entry was fetched, zero when the clock went back.
pub open spec fn cache_age(fetched_at: u64, now: u64) -> int {
    if now >= fetched_at {
        now - fetched_at
    } else {
        0
    }
}

/// A cached entry is fresh while it is younger than the TTL; an entry from
/// the future (the clock went back) counts as fresh.
pub fn cache_is_fresh(entry: &CachedRelease, now: u64) -> (b: bool)
    ensures
        b == (cache_age(entry.fetched_at, now) < RELEASE_CACHE_TTL_SECS),
{
    now.saturating_sub(entry.fetched_at) < RELEASE_CACHE_TTL_SECS
}

/// Whether a request for the latest release is answered from the cache
/// without asking GitHub: not forced, and a fresh entry is there.
pub fn serve_from_cache(cached: &Option<CachedRelease>, force: bool, now: u64) -> (b: bool)
    ensures
        b == (!force && (match cached {
            Some(e) => cache_age(e.fetched_at, now) < RELEASE_CACHE_TTL_SECS,
            None => false,
        })),
{
    if force {
        return false;
    }
    match cached {
        Some(e) => cache_is_fresh(e, now),
        None => false,
    }
}

/// What a request for the latest release answers once GitHub was asked:
/// the fresh release, or else the cached one however old, or else the error.
pub fn settle_fetch(remote: Result<ReleaseInfo, String>, cached: Option<CachedRelease>) -> (r:
    Result<ReleaseInfo, String>)
    ensures
        r == (match remote {
            Ok(rel) => Ok(rel),
            Err(e) => match cached {
                Some(c) => Ok(c.release),
                None => Err(e),
            },
        }),
{
    match remote {
        Ok(rel) => Ok(rel),
        Err(e) => match cached {
            Some(c) => Ok(c.release),
            None => Err(e),
        },
    }
}

/// The version of a tag: one leading `v` dropped (only one: `vv1.0` gives
/// `v1.0`).
pub open spec fn tag_version(tag: Seq<char>) -> Seq<char> {
    if tag.len() > 0 && tag[0] == 'v' {
        tag.drop_first()
    } else {
        tag
    }
}

pub fn version_from_tag(tag: &str) -> (v: String)
    ensures
        v@ == tag_version(tag@),
{
    let c = chars_of(tag);
    if c.len() > 0 && c[0] == 'v' {
        let rest = crate::text::slice_chars(&c, 1, c.len());
        assert(rest@ == c@.drop_first());
        string_of(&rest)
    } else {
        string_of(&c)
    }
}

/// The release described by a tag and its assets.
pub fn release_from_parts(tag: String, assets: Vec<AssetInfo>) -> (r: ReleaseInfo)
    ensures
        r.tag == tag,
        r.version@ == tag_version(tag@),
        r.assets == assets,
{
    let version = version_from_tag(tag.as_str());
    ReleaseInfo { tag, version, assets }
}

/// The API address of the latest release of `repo` ("owner/name").
pub fn latest_release_url(repo: &str) -> (u: String)
    ensures
        u@ == "https://api.github.com/repos/"@ + repo@ + "/releases/latest"@,
{
    let mut u = String::from_str("https://api.github.com/repos/");
    u.append(repo);
    u.append("/releases/latest");
    u
}

/// The hint added to a failed answer: rate limiting for 403 and 429.
pub open spec fn status_hint_text(status: u16) -> Seq<char> {
    if status == 403 || status == 429 {
        " (provável rate limit da API — espere ~1h ou tente de novo mais tarde)"@
    } else {
        ""@
    }
}

pub fn status_hint(status: u16) -> (h: &'static str)
    ensures
        h@ == status_hint_text(status),
{
    if status == 403 || status == 429 {
        " (provável rate limit da API — espere ~1h ou tente de novo mais tarde)"
    } else {
        ""
    }
}

/// The names of a list of assets.
pub open spec fn asset_names(s: Seq<AssetInfo>) -> Seq<Seq<char>> {
    s.map_values(|a: AssetInfo| a.name@)
}

/// The glob `g` matches the asset name `n`, case folded.
pub open spec fn glob_hit(g: Seq<char>, n: Seq<char>) -> bool {
    glob_matches(g, n)
}

/// `i` is the first position of `names` that `g` matches.
pub open spec fn is_first_hit(g: Seq<char>, names: Seq<Seq<char>>, i: int) -> bool {
    &&& 0 <= i < names.len()
    &&& glob_hit(g, names[i])
    &&& forall|j: int| 0 <= j < i ==> !glob_hit(g, #[trigger] names[j])
}

/// No name of `names` matches `g`.
pub open spec fn no_hit(g: Seq<char>, names: Seq<Seq<char>>) -> bool {
    forall|j: int| 0 <= j < names.len() ==> !glob_hit(g, #[trigger] names[j])
}

/// The first asset that the glob `g` matches, if any.
pub fn first_asset_for(assets: &[AssetInfo], g: &str) -> (r: Option<usize>)
    ensures
        match r {
            Some(i) => is_first_hit(g@, asset_names(assets@), i as int),
            None => no_hit(g@, asset_names(assets@)),
        },
{
    let ghost names = asset_names(assets@);
    let mut i: usize = 0;
    while i < assets.len()
        invariant
            i <= assets.len(),
            names == asset_names(assets@),
            forall|j: int| 0 <= j < i ==> !glob_hit(g@, #[trigger] names[j]),
        decreases assets.len() - i,
    {
        assert(names[i as int] == assets@[i as int].name@);
        if glob_match(g, assets[i].name.as_str()) {
            return Some(i);
        }
        i += 1;
    }
    None
}

/// `k` is the first glob of `globs` that matches some name.
pub open spec fn is_first_glob(globs: Seq<Seq<char>>, names: Seq<Seq<char>>, k: int) -> bool {
    &&& 0 <= k < globs.len()
    &&& !no_hit(globs[k], names)
    &&& forall|k2: int| 0 <= k2 < k ==> no_hit(#[trigger] globs[k2], names)
}

/// The asset a list of globs picks: the first glob that matches any asset,
/// and the first asset that it matches. The result is `(glob, asset)`.
pub fn select_asset(assets: &[AssetInfo], globs: &[String]) -> (r: Option<(usize, usize)>)
    ensures
        match r {
            Some((k, i)) => is_first_glob(globs.deep_view(), asset_names(assets@), k as int)
                && is_first_hit(globs.deep_view()[k as int], asset_names(assets@), i as int),
            None => forall|k: int|
                0 <= k < globs.len() ==> no_hit(#[trigger] globs.deep_view()[k], asset_names(
                    assets@,
                )),
        },
{
    let ghost gv = globs.deep_view();
    let mut k: usize = 0;
    while k < globs.len()
        invariant
            k <= globs.len(),
            gv == globs.deep_view(),
            forall|k2: int| 0 <= k2 < k ==> no_hit(#[trigger] gv[k2], asset_names(assets@)),
        decreases globs.len() - k,
    {
        assert(gv[k as int] == globs@[k as int]@);
        match first_asset_for(assets, globs[k].as_str()) {
            Some(i) => {
                return Some((k, i));
            },
            None => {},
        }
        k += 1;
    }
    None
}

/// The patterns tried for a Windows installer, most specific first.
pub open spec fn win_patterns() -> Seq<Seq<char>> {
    seq!["*x64-setup.exe"@, "*setup*.exe"@, "*install*.exe"@, "*.exe"@]
}

/// The patterns tried for a Linux AppImage, most specific first.
pub open spec fn linux_patterns() -> Seq<Seq<char>> {
    seq!["*amd64.appimage"@, "*x86_64.appimage"@, "*.appimage"@]
}

/// The first pattern that matches some name, or the empty text.
pub open spec fn picked_pattern(pats: Seq<Seq<char>>, names: Seq<Seq<char>>) -> Seq<char> {
    if exists|k: int| is_first_glob(pats, names, k) {
        pats[choose|k: int| is_first_glob(pats, names, k)]
    } else {
        Seq::empty()
    }
}

proof fn lemma_first_glob_unique(pats: Seq<Seq<char>>, names: Seq<Seq<char>>, k: int)
    requires
        is_first_glob(pats, names, k),
    ensures
        forall|k2: int| is_first_glob(pats, names, k2) ==> k2 == k,
{
    assert forall|k2: int| is_first_glob(pats, names, k2) implies k2 == k by {
        if k2 < k {
            assert(no_hit(pats[k2], names));
        } else if k < k2 {
            assert(no_hit(pats[k], names));
        }
    }
}

fn pick_pattern(assets: &[AssetInfo], pats: Vec<String>) -> (r: String)
    ensures
        r@ == picked_pattern(pats.deep_view(), asset_names(assets@)),
{
    let ghost pv = pats.deep_view();
    let sl = pats.as_slice();
    assert(sl.deep_view() =~= pv);
    match select_asset(assets, sl) {
        Some((k, _)) => {
            proof {
                lemma_first_glob_unique(pv, asset_names(assets@), k as int);
            }
            let r = pats[k].clone();
            assert(r@ == pv[k as int]);
            r
        },
        None => {
            assert forall|k: int| !is_first_glob(pv, asset_names(assets@), k) by {
                if 0 <= k < pv.len() {
                    assert(no_hit(pv[k], asset_names(assets@)));
                }
            }
            String::new()
        },
    }
}

/// The installable assets of a release: the most specific Windows installer
/// pattern and the most specific AppImage pattern that match some asset, each
/// empty when none does.
pub fn guess_assets(assets: &[AssetInfo]) -> (r: (String, String))
    ensures
        r.0@ == picked_pattern(win_patterns(), asset_names(assets@)),
        r.1@ == picked_pattern(linux_patterns(), asset_names(assets@)),
{
    let mut win: Vec<String> = Vec::new();
    win.push(String::from_str("*x64-setup.exe"));
    win.push(String::from_str("*setup*.exe"));
    win.push(String::from_str("*install*.exe"));
    win.push(String::from_str("*.exe"));
    assert(win.deep_view() =~= win_patterns());
    let mut linux: Vec<String> = Vec::new();
    linux.push(String::from_str("*amd64.appimage"));
    linux.push(String::from_str("*x86_64.appimage"));
    linux.push(String::from_str("*.appimage"));
    assert(linux.deep_view() =~= linux_patterns());
    let w = pick_pattern(assets, win);
    let l = pick_pattern(assets, linux);
    (w, l)
}

/// The symbol of a 6-bit value in the standard Base64 alphabet:
/// `A`-`Z`, `a`-`z`, `0`-`9`, `+`, `/`.
pub open spec fn base64_symbol(v: int) -> char {
    if v < 26 {
        (65 + v) as char
    } else if v < 52 {
        (97 + (v - 26)) as char
    } else if v < 62 {
        (48 + (v - 52)) as char
    } else if v == 62 {
        '+'
    } else {
        '/'
    }
}

/// The standard Base64 text of `data` (RFC 4648, padded), as the `base64`
/// crate's `STANDARD` engine writes it: every three bytes become four
/// symbols of six bits each, and a last group of one or two bytes is
/// padded with `=` to four symbols.
pub open spec fn base64_standard(data: Seq<u8>) -> Seq<char>
    decreases data.len(),
{
    if data.len() == 0 {
        Seq::empty()
    } else if data.len() == 1 {
        let a = data[0] as int;
        seq![base64_symbol(a / 4), base64_symbol((a % 4) * 16), '=', '=']
    } else if data.len() == 2 {
        let a = data[0] as int;
        let b = data[1] as int;
        seq![base64_symbol(a / 4), base64_symbol((a % 4) * 16 + b / 16), base64_symbol((b % 16) * 4), '=']
    } else {
        let a = data[0] as int;
        let b = data[1] as int;
        let c = data[2] as int;
        seq![
            base64_symbol(a / 4),
            base64_symbol((a % 4) * 16 + b / 16),
            base64_symbol((b % 16) * 4 + c / 64),
            base64_symbol(c % 64),
        ] + base64_standard(data.skip(3))
    }
}

/// The length of that text fits in `usize`; beyond it the engine panics.
pub open spec fn base64_fits(n: nat) -> bool {
    (n / 3) * 4 + (if n % 3 > 0 {
        4int
    } else {
        0int
    }) <= usize::MAX
}

/// `base64::engine::general_purpose::STANDARD.encode`: its text is
/// `base64_standard(data@)`.
#[verifier::external_body]
fn encode_base64(data: &[u8]) -> (r: String)
    requires
        base64_fits(data@.len()),
    ensures
        r@ == base64_standard(data@),
{
    base64::engine::general_purpose::STANDARD.encode(data)
}

/// The `data:` address that shows a PNG icon without any file.
pub fn icon_data_url(bytes: &[u8]) -> (u: String)
    requires
        base64_fits(bytes@.len()),
    ensures
        u@ == "data:image/png;base64,"@ + base64_standard(bytes@),
{
    let enc = encode_base64(bytes);
    let mut u = String::from_str("data:image/png;base64,");
    u.append(enc.as_str());
    u
}

/// A character kept in an icon's file name.
pub open spec fn is_icon_name_char(c: char) -> bool {
    is_ascii_alnum(c) || c == '-' || c == '_'
}

/// The app id with every character outside ASCII letters, digits, `-` and
/// `_` dropped.
pub open spec fn icon_stem(id: Seq<char>) -> Seq<char>
    decreases id.len(),
{
    if id.len() == 0 {
        Seq::empty()
    } else if is_icon_name_char(id.last()) {
        icon_stem(id.drop_last()).push(id.last())
    } else {
        icon_stem(id.drop_last())
    }
}

/// The file an app's icon is cached in: its sanitized id with `.png`; none
/// when nothing of the id is left.
pub fn icon_file_name(id: &str) -> (r: Option<String>)
    ensures
        icon_stem(id@).len() == 0 ==> r is None,
        icon_stem(id@).len() > 0 ==> (r matches Some(f) && f@ == icon_stem(id@) + ".png"@),
{
    let v = chars_of(id);
    let mut stem: Vec<char> = Vec::new();
    let mut i: usize = 0;
    while i < v.len()
        invariant
            i <= v.len(),
            v@ == id@,
            stem@ == icon_stem(v@.take(i as int)),
        decreases v.len() - i,
    {
        assert(v@.take(i + 1).drop_last() == v@.take(i as int));
        let c = v[i];
        if char_is_alnum(c) || c == '-' || c == '_' {
            stem.push(c);
        }
        i += 1;
    }
    assert(v@.take(v.len() as int) == v@);
    if stem.len() == 0 {
        return None;
    }
    let mut f = string_of(&stem);
    f.append(".png");
    Some(f)
}

/// The cached icon answers at once unless a refresh was asked for.
pub fn cached_icon(cached: &Option<Vec<u8>>, force: bool) -> (r: Option<String>)
    requires
        cached matches Some(b) ==> base64_fits(b@.len()),
    ensures
        match cached {
            Some(b) => if force {
                r is None
            } else {
                r matches Some(u) && u@ == "data:image/png;base64,"@ + base64_standard(b@)
            },
            None => r is None,
        },
{
    if force {
        return None;
    }
    match cached {
        Some(b) => Some(icon_data_url(b.as_slice())),
        None => None,
    }
}

/// What an icon request answers once the download was tried: the fresh
/// icon, or else the cached one however old, or else the download's error.
pub fn settle_icon(fetched: Result<Vec<u8>, String>, cached: Option<Vec<u8>>) -> (r: Result<
    String,
    String,
>)
    requires
        fetched matches Ok(b) ==> base64_fits(b@.len()),
        cached matches Some(b) ==> base64_fits(b@.len()),
    ensures
        match fetched {
            Ok(b) => r matches Ok(u) && u@ == "data:image/png;base64,"@ + base64_standard(b@),
            Err(e) => match cached {
                Some(b) => r matches Ok(u) && u@ == "data:image/png;base64,"@ + base64_standard(b@),
                None => r == Err::<String, String>(e),
            },
        },
{
    match fetched {
        Ok(b) => Ok(icon_data_url(b.as_slice())),
        Err(e) => match cached {
            Some(b) => Ok(icon_data_url(b.as_slice())),
            None => Err(e),
        },
    }
}

/// Law: whenever some asset's name ends in `.AppImage`, in any case, a Linux
/// pattern is guessed: one of the AppImage patterns, the catch-all
/// `*.appimage` at the latest, and it matches one of the assets. (The
/// lowercase form of `*.appimage` is itself, as `str::to_lowercase` gives
/// for ASCII text.)
pub proof fn law_appimage_always_guessed(names: Seq<Seq<char>>, i: int)
    requires
        0 <= i < names.len(),
        ends_with(lowercased(names[i]), ".appimage"@),
        lowercased("*.appimage"@) == "*.appimage"@,
    ensures
        ({
            let p = picked_pattern(linux_patterns(), names);
            &&& p == "*amd64.appimage"@ || p == "*x86_64.appimage"@ || p == "*.appimage"@
            &&& p.len() > 0
            &&& exists|j: int| 0 <= j < names.len() && glob_hit(p, #[trigger] names[j])
        }),
{
    reveal_strlit("*amd64.appimage");
    reveal_strlit("*x86_64.appimage");
    reveal_strlit("*.appimage");
    reveal_strlit(".appimage");
    let pats = linux_patterns();
    let tail = ".appimage"@;
    assert(star_free(tail));
    assert("*.appimage"@ =~= seq!['*'] + tail);
    lemma_glob_star_suffix(tail, lowercased(names[i]));
    assert(glob_hit(pats[2], names[i]));
    assert(!no_hit(pats[2], names));
    let k: int = if !no_hit(pats[0], names) {
        0
    } else if !no_hit(pats[1], names) {
        1
    } else {
        2
    };
    assert(is_first_glob(pats, names, k));
    lemma_first_glob_unique(pats, names, k);
    assert(picked_pattern(pats, names) == pats[k]);
    assert(!no_hit(pats[k], names));
}

/// Law: whenever some asset's name ends in `.exe`, in any case, a Windows
/// pattern is guessed: one of the installer patterns, the catch-all `*.exe`
/// at the latest, and it matches one of the assets. (The lowercase form of
/// `*.exe` is itself, as `str::to_lowercase` gives for ASCII text.)
pub proof fn law_exe_always_guessed(names: Seq<Seq<char>>, i: int)
    requires
        0 <= i < names.len(),
        ends_with(lowercased(names[i]), ".exe"@),
        lowercased("*.exe"@) == "*.exe"@,
    ensures
        ({
            let p = picked_pattern(win_patterns(), names);
            &&& p == "*x64-setup.exe"@ || p == "*setup*.exe"@ || p == "*install*.exe"@ || p == "*.exe"@
            &&& p.len() > 0
            &&& exists|j: int| 0 <= j < names.len() && glob_hit(p, #[trigger] names[j])
        }),
{
    reveal_strlit("*x64-setup.exe");
    reveal_strlit("*setup*.exe");
    reveal_strlit("*install*.exe");
    reveal_strlit("*.exe");
    reveal_strlit(".exe");
    let pats = win_patterns();
    let tail = ".exe"@;
    assert(star_free(tail));
    assert("*.exe"@ =~= seq!['*'] + tail);
    lemma_glob_star_suffix(tail, lowercased(names[i]));
    assert(glob_hit(pats[3], names[i]));
    assert(!no_hit(pats[3], names));
    let k: int = if !no_hit(pats[0], names) {
        0
    } else if !no_hit(pats[1], names) {
        1
    } else if !no_hit(pats[2], names) {
        2
    } else {
        3
    };
    assert(is_first_glob(pats, names, k));
    lemma_first_glob_unique(pats, names, k);
    assert(picked_pattern(pats, names) == pats[k]);
    assert(!no_hit(pats[k], names));
}

/// Law: the most specific pattern wins: where some asset is an amd64
/// AppImage, `*amd64.appimage` is the Linux pattern guessed, and where some
/// asset is an x64 setup, `*x64-setup.exe` is the Windows one.
pub proof fn law_most_specific_pattern_wins(names: Seq<Seq<char>>, i: int)
    requires
        0 <= i < names.len(),
    ensures
        glob_hit("*amd64.appimage"@, names[i]) ==> picked_pattern(linux_patterns(), names)
            == "*amd64.appimage"@,
        glob_hit("*x64-setup.exe"@, names[i]) ==> picked_pattern(win_patterns(), names)
            == "*x64-setup.exe"@,
{
    let lp = linux_patterns();
    if glob_hit("*amd64.appimage"@, names[i]) {
        assert(!no_hit(lp[0], names));
        assert(is_first_glob(lp, names, 0));
        lemma_first_glob_unique(lp, names, 0);
    }
    let wp = win_patterns();
    if glob_hit("*x64-setup.exe"@, names[i]) {
        assert(!no_hit(wp[0], names));
        assert(is_first_glob(wp, names, 0));
        lemma_first_glob_unique(wp, names, 0);
    }
}

} // verus!
