//! Raw values of the Windows `Uninstall` registry keys: trimming what the
//! installers write, and resolving the executable and its folder from them.
use crate::detect::{is_not_installed, not_installed, DetectSpec, InstalledInfo};
use crate::glob::{lowercased, to_lower};
use crate::paths::{joined_path, parent_or_empty, parent_text, path_join};
use crate::text::{
    chars_of, ends_with, has_prefix, has_suffix, lemma_first_piece_len, lemma_split_by_nonempty,
    pieces_view, same_text, slice_chars, split_by, split_chars, starts_with, string_of, trim_by,
    trim_chars, CharSet,
};
use vstd::prelude::*;
use vstd::string::*;

verus! {

/// `InstallLocation` trimmed: whitespace, then the quotes NSIS writes, then
/// whitespace again.
pub open spec fn cleaned_location(raw: Seq<char>) -> Seq<char> {
    trim_by(trim_by(trim_by(raw, CharSet::Whitespace), CharSet::One('"')), CharSet::Whitespace)
}

pub fn clean_install_location(raw: &str) -> (r: String)
    ensures
        r@ == cleaned_location(raw@),
{
    let v = chars_of(raw);
    let a = trim_chars(&v, CharSet::Whitespace);
    let b = trim_chars(&a, CharSet::One('"'));
    let c = trim_chars(&b, CharSet::Whitespace);
    string_of(&c)
}

/// `DisplayIcon` trimmed. Quoted, the path runs up to the closing quote (a
/// comma inside the quotes belongs to the path); unquoted, it runs up to the
/// first comma (the icon index after it is dropped).
pub open spec fn cleaned_icon(raw: Seq<char>) -> Seq<char> {
    let s = trim_by(raw, CharSet::Whitespace);
    if s.len() > 0 && s[0] == '"' {
        split_by(s.drop_first(), CharSet::One('"'))[0]
    } else {
        trim_by(split_by(s, CharSet::One(','))[0], CharSet::Whitespace)
    }
}

pub fn clean_display_icon(raw: &str) -> (r: String)
    ensures
        r@ == cleaned_icon(raw@),
{
    let v = chars_of(raw);
    let s = trim_chars(&v, CharSet::Whitespace);
    if s.len() > 0 && s[0] == '"' {
        let rest = slice_chars(&s, 1, s.len());
        assert(rest@ == s@.drop_first());
        let parts = split_chars(&rest, CharSet::One('"'));
        proof {
            lemma_split_by_nonempty(rest@, CharSet::One('"'));
        }
        assert(parts@[0]@ == pieces_view(parts@)[0]);
        string_of(&parts[0])
    } else {
        let parts = split_chars(&s, CharSet::One(','));
        proof {
            lemma_split_by_nonempty(s@, CharSet::One(','));
        }
        assert(parts@[0]@ == pieces_view(parts@)[0]);
        let t = trim_chars(&parts[0], CharSet::Whitespace);
        string_of(&t)
    }
}

/// The probe answered `b` when asked about the path `p`.
pub open spec fn answered<F: Fn(&String) -> bool>(probe: F, p: Seq<char>, b: bool) -> bool {
    exists|s: &String| s@ == p && call_ensures(probe, (s,), b)
}

/// `(exe, loc)` is what the registry values resolve to, in order:
/// `InstallLocation` joined with the executable's name, when that file
/// exists; else `DisplayIcon`, when it exists (the location then comes from
/// its folder if `InstallLocation` was empty); else no executable.
/// `file_exists` is the file probe.
pub open spec fn registry_exe_resolved<F: Fn(&String) -> bool>(
    file_exists: F,
    install_location: Seq<char>,
    display_icon: Seq<char>,
    exe_name: Seq<char>,
    exe: Seq<char>,
    loc: Seq<char>,
) -> bool {
    let l = cleaned_location(install_location);
    let icon = cleaned_icon(display_icon);
    let cand = joined_path(l, exe_name);
    let cand_missing = l.len() == 0 || answered(file_exists, cand, false);
    ||| (l.len() > 0 && answered(file_exists, cand, true) && exe == cand && loc == l)
    ||| (cand_missing && icon.len() > 0 && answered(file_exists, icon, true) && exe == icon && loc
        == (if l.len() == 0 {
        parent_or_empty(icon)
    } else {
        l
    }))
    ||| (cand_missing && (icon.len() == 0 || answered(file_exists, icon, false)) && exe.len() == 0
        && loc == l)
}

/// Resolves `(exe, location)` from the raw registry values (see
/// `registry_exe_resolved`).
pub fn exe_and_location_from_registry_values<F: Fn(&String) -> bool>(
    install_location: &str,
    display_icon: &str,
    exe_name: &str,
    file_exists: F,
) -> (r: (String, String))
    requires
        forall|s: &String| call_requires(file_exists, (s,)),
    ensures
        registry_exe_resolved(file_exists, install_location@, display_icon@, exe_name@, r.0@, r.1@),
{
    let location = clean_install_location(install_location);
    if location.as_str().unicode_len() > 0 {
        let cand = path_join(location.as_str(), exe_name);
        let found = file_exists(&cand);
        if found {
            return (cand, location);
        }
        assert(answered(file_exists, cand@, false));
    }
    let icon = clean_display_icon(display_icon);
    if icon.as_str().unicode_len() > 0 {
        let seen = file_exists(&icon);
        if seen {
            if location.as_str().unicode_len() == 0 {
                let loc = parent_text(icon.as_str());
                return (icon, loc);
            }
            return (icon, location);
        }
        assert(answered(file_exists, icon@, false));
    }
    (String::new(), location)
}

/// A registry `DisplayName` names the app: the product name itself, or the
/// product name followed by a space (installers that append the version).
pub open spec fn names_app(display: Seq<char>, name: Seq<char>) -> bool {
    display == name || starts_with(display, name.push(' '))
}

pub fn display_name_matches(display: &str, name: &str) -> (b: bool)
    ensures
        b == names_app(display@, name@),
{
    let d = chars_of(display);
    let mut n = chars_of(name);
    if crate::text::same_chars(&d, &n) {
        return true;
    }
    n.push(' ');
    has_prefix(&d, &n)
}

/// The values the Hub reads from one `Uninstall` key of the registry
/// (empty when the key lacks one).
#[derive(Clone, Debug)]
pub struct UninstallKey {
    pub display_name: String,
    pub display_version: String,
    pub install_location: String,
    pub display_icon: String,
    pub quiet_uninstall: String,
    pub uninstall: String,
}

/// `i` is the first key, in the order the hives are read, that names the
/// app `name`.
pub open spec fn is_first_named(keys: Seq<UninstallKey>, name: Seq<char>, i: int) -> bool {
    &&& 0 <= i < keys.len()
    &&& names_app(keys[i].display_name@, name)
    &&& forall|j: int| 0 <= j < i ==> !names_app(#[trigger] keys[j].display_name@, name)
}

/// No key names the app `name`.
pub open spec fn none_named(keys: Seq<UninstallKey>, name: Seq<char>) -> bool {
    forall|j: int| 0 <= j < keys.len() ==> !names_app(#[trigger] keys[j].display_name@, name)
}

pub fn first_named_key(keys: &[UninstallKey], name: &str) -> (r: Option<usize>)
    ensures
        match r {
            Some(i) => is_first_named(keys@, name@, i as int),
            None => none_named(keys@, name@),
        },
{
    let mut i: usize = 0;
    while i < keys.len()
        invariant
            i <= keys.len(),
            forall|j: int| 0 <= j < i ==> !names_app(#[trigger] keys@[j].display_name@, name@),
        decreases keys.len() - i,
    {
        if display_name_matches(keys[i].display_name.as_str(), name) {
            return Some(i);
        }
        i += 1;
    }
    None
}

/// What the registry tells of an app on Windows: the first key that names
/// it gives the version and, through `registry_exe_resolved`, the
/// executable and folder; with no such key the app is not installed.
pub fn registry_detection<F: Fn(&String) -> bool>(
    spec: &DetectSpec,
    keys: &[UninstallKey],
    file_exists: F,
) -> (info: InstalledInfo)
    requires
        forall|s: &String| call_requires(file_exists, (s,)),
    ensures
        none_named(keys@, spec.name@) ==> is_not_installed(info, spec.id@),
        info.installed <==> info.source@.len() > 0,
        forall|i: int|
            is_first_named(keys@, spec.name@, i) ==> {
                &&& info.id@ == spec.id@
                &&& info.installed
                &&& info.version@ == keys@[i].display_version@
                &&& info.source@ == "registry"@
                &&& registry_exe_resolved(
                    file_exists,
                    keys@[i].install_location@,
                    keys@[i].display_icon@,
                    spec.exe@,
                    info.exe@,
                    info.location@,
                )
            },
{
    proof {
        reveal_strlit("registry");
    }
    match first_named_key(keys, spec.name.as_str()) {
        None => not_installed(spec.id.clone()),
        Some(i) => {
            let k = &keys[i];
            let (exe, location) = exe_and_location_from_registry_values(
                k.install_location.as_str(),
                k.display_icon.as_str(),
                spec.exe.as_str(),
                file_exists,
            );
            proof {
                assert forall|i2: int| is_first_named(keys@, spec.name@, i2) implies i2 == i by {
                    if i2 < i {
                        assert(!names_app(keys@[i2].display_name@, spec.name@));
                    } else if i < i2 {
                        assert(!names_app(keys@[i as int].display_name@, spec.name@));
                    }
                }
            }
            InstalledInfo {
                id: spec.id.clone(),
                installed: true,
                version: k.display_version.clone(),
                location,
                exe,
                source: String::from_str("registry"),
            }
        },
    }
}

/// A file name (lowercased) that reads as the app's own executable: an
/// `.exe` that is not the uninstaller.
pub open spec fn is_app_exe_name(lower: Seq<char>) -> bool {
    ends_with(lower, ".exe"@) && !contains_text(lower, "unin"@)
}

/// `needle` occurs somewhere in `s`.
pub open spec fn contains_text(s: Seq<char>, needle: Seq<char>) -> bool {
    exists|i: int| 0 <= i <= s.len() - needle.len() && #[trigger] s.subrange(i, i + needle.len()) == needle
}

fn has_text(s: &Vec<char>, needle: &Vec<char>) -> (b: bool)
    ensures
        b == contains_text(s@, needle@),
{
    if needle.len() > s.len() {
        return false;
    }
    let mut i: usize = 0;
    while i <= s.len() - needle.len()
        invariant
            needle.len() <= s.len(),
            i <= s.len() - needle.len() + 1,
            forall|k: int| 0 <= k < i ==> #[trigger] s@.subrange(k, k + needle.len()) != needle@,
        decreases s.len() - needle.len() + 1 - i,
    {
        let mut j: usize = 0;
        let mut same = true;
        while j < needle.len()
            invariant
                needle.len() <= s.len(),
                i <= s.len() - needle.len(),
                j <= needle.len(),
                same == forall|t: int| 0 <= t < j ==> s@[i + t] == needle@[t],
            decreases needle.len() - j,
        {
            if s[i + j] != needle[j] {
                same = false;
            }
            j += 1;
        }
        if same {
            assert(s@.subrange(i as int, i + needle.len()) =~= needle@);
            return true;
        }
        assert(!(s@.subrange(i as int, i + needle.len()) =~= needle@));
        i += 1;
    }
    false
}

/// `i` is the first file of a folder listing (name, path) that is the
/// app's executable.
pub open spec fn is_first_app_exe(files: Seq<(String, String)>, i: int) -> bool {
    &&& 0 <= i < files.len()
    &&& is_app_exe_name(lowercased(files[i].0@))
    &&& forall|j: int| 0 <= j < i ==> !is_app_exe_name(lowercased(#[trigger] files[j].0@))
}

/// The executable found in an install folder, at best: the first file whose
/// name ends in `.exe` and is not the uninstaller; `files` holds each file's
/// name and path.
pub fn folder_app_exe(files: &[(String, String)]) -> (r: Option<String>)
    ensures
        match r {
            Some(p) => exists|i: int| #[trigger] is_first_app_exe(files@, i) && p == files@[i].1,
            None => forall|j: int| 0 <= j < files.len() ==> !is_app_exe_name(lowercased(#[trigger] files@[j].0@)),
        },
{
    let exe = chars_of(".exe");
    let unin = chars_of("unin");
    let mut i: usize = 0;
    while i < files.len()
        invariant
            i <= files.len(),
            exe@ == ".exe"@,
            unin@ == "unin"@,
            forall|j: int| 0 <= j < i ==> !is_app_exe_name(lowercased(#[trigger] files@[j].0@)),
        decreases files.len() - i,
    {
        let lower = to_lower(files[i].0.as_str());
        let lv = chars_of(lower.as_str());
        if has_suffix(&lv, &exe) && !has_text(&lv, &unin) {
            assert(is_first_app_exe(files@, i as int));
            return Some(files[i].1.clone());
        }
        i += 1;
    }
    None
}

/// `DisplayIcon`, cleaned, names an executable.
pub open spec fn icon_is_exe(icon: Seq<char>) -> bool {
    icon.len() > 0 && ends_with(lowercased(icon), ".exe"@)
}

/// The text of an optional string, empty when there is none.
pub open spec fn text_of(o: Option<String>) -> Seq<char> {
    match o {
        Some(s) => s@,
        None => Seq::empty(),
    }
}

/// What a new `Uninstall` key tells of the app just installed, as
/// (name, version, exe, location); none for a key without a display name.
/// The executable is `DisplayIcon` when that is an `.exe` the probe finds
/// (the location then defaults to its folder); else, with an install
/// location, the executable found in that folder (`folder_exe`, from
/// `folder_app_exe`); else none.
pub fn uninstall_entry<F: Fn(&String) -> bool>(
    key: &UninstallKey,
    file_exists: F,
    folder_exe: Option<String>,
) -> (r: Option<(String, String, String, String)>)
    requires
        forall|s: &String| call_requires(file_exists, (s,)),
    ensures
        key.display_name@.len() == 0 ==> r is None,
        key.display_name@.len() > 0 ==> (r matches Some((name, version, exe, location)) && {
            let l = cleaned_location(key.install_location@);
            let icon = cleaned_icon(key.display_icon@);
            &&& name == key.display_name
            &&& version == key.display_version
            &&& {
                ||| (icon_is_exe(icon) && answered(file_exists, icon, true) && exe@ == icon
                    && location@ == if l.len() == 0 {
                    parent_or_empty(icon)
                } else {
                    l
                })
                ||| ((!icon_is_exe(icon) || answered(file_exists, icon, false)) && location@ == l
                    && exe@ == if l.len() > 0 {
                    text_of(folder_exe)
                } else {
                    Seq::empty()
                })
            }
        }),
{
    if key.display_name.as_str().unicode_len() == 0 {
        return None;
    }
    let location = clean_install_location(key.install_location.as_str());
    let icon = clean_display_icon(key.display_icon.as_str());
    let lower = to_lower(icon.as_str());
    let lv = chars_of(lower.as_str());
    let exe_suffix = chars_of(".exe");
    if icon.as_str().unicode_len() > 0 && has_suffix(&lv, &exe_suffix) {
        let here = file_exists(&icon);
        if here {
            let loc = if location.as_str().unicode_len() == 0 {
                parent_text(icon.as_str())
            } else {
                location
            };
            return Some((key.display_name.clone(), key.display_version.clone(), icon, loc));
        }
        assert(answered(file_exists, icon@, false));
    }
    let exe = if location.as_str().unicode_len() > 0 {
        match folder_exe {
            Some(e) => e,
            None => String::new(),
        }
    } else {
        String::new()
    };
    Some((key.display_name.clone(), key.display_version.clone(), exe, location))
}

/// The keys of `after` that `before` lacks, in order: what an installer
/// added to the registry.
pub open spec fn added_keys(before: Seq<Seq<char>>, after: Seq<Seq<char>>) -> Seq<Seq<char>>
    decreases after.len(),
{
    if after.len() == 0 {
        Seq::empty()
    } else {
        let rest = added_keys(before, after.drop_last());
        if before.contains(after.last()) {
            rest
        } else {
            rest.push(after.last())
        }
    }
}

fn has_key(keys: &Vec<String>, k: &String) -> (b: bool)
    ensures
        b == keys.deep_view().contains(k@),
{
    let ghost kv = keys.deep_view();
    let mut i: usize = 0;
    while i < keys.len()
        invariant
            i <= keys.len(),
            kv == keys.deep_view(),
            forall|j: int| 0 <= j < i ==> #[trigger] kv[j] != k@,
        decreases keys.len() - i,
    {
        assert(kv[i as int] == keys@[i as int]@);
        if keys[i] == *k {
            return true;
        }
        i += 1;
    }
    false
}

pub fn keys_added(before: &Vec<String>, after: &Vec<String>) -> (r: Vec<String>)
    ensures
        r.deep_view() == added_keys(before.deep_view(), after.deep_view()),
{
    let ghost av = after.deep_view();
    let ghost bv = before.deep_view();
    let mut r: Vec<String> = Vec::new();
    let mut i: usize = 0;
    while i < after.len()
        invariant
            i <= after.len(),
            av == after.deep_view(),
            bv == before.deep_view(),
            r.deep_view() == added_keys(bv, av.take(i as int)),
        decreases after.len() - i,
    {
        assert(av.take(i + 1).drop_last() == av.take(i as int));
        assert(av.take(i + 1).last() == after@[i as int]@);
        if !has_key(before, &after[i]) {
            let k = after[i].clone();
            let ghost prev = r.deep_view();
            r.push(k);
            assert(r.deep_view() =~= prev.push(after@[i as int]@));
        }
        i += 1;
    }
    assert(av.take(after.len() as int) == av);
    r
}

/// The three places the `Uninstall` keys are read from, in this order.
#[derive(Clone, Copy, Debug, PartialEq, Eq, Structural)]
pub enum UninstallHive {
    /// `HKEY_CURRENT_USER`, the 64-bit view.
    CurrentUser,
    /// `HKEY_LOCAL_MACHINE`, the 64-bit view.
    LocalMachine,
    /// `HKEY_LOCAL_MACHINE`, the 32-bit view (`WOW6432Node`).
    LocalMachineWow,
}

/// The short tag a key's name is prefixed with, naming its hive.
pub open spec fn hive_tag_text(h: UninstallHive) -> Seq<char> {
    match h {
        UninstallHive::CurrentUser => "hkcu"@,
        UninstallHive::LocalMachine => "hklm"@,
        UninstallHive::LocalMachineWow => "wow"@,
    }
}

/// The hive a tag names: `hkcu` and `hklm`, anything else the 32-bit view.
pub open spec fn hive_of_tag(tag: Seq<char>) -> UninstallHive {
    if tag == "hkcu"@ {
        UninstallHive::CurrentUser
    } else if tag == "hklm"@ {
        UninstallHive::LocalMachine
    } else {
        UninstallHive::LocalMachineWow
    }
}

/// The path, inside its root, of a hive's `Uninstall` keys.
pub open spec fn hive_path_text(h: UninstallHive) -> Seq<char> {
    match h {
        UninstallHive::LocalMachineWow => "Software\\WOW6432Node\\Microsoft\\Windows\\CurrentVersion\\Uninstall"@,
        _ => "Software\\Microsoft\\Windows\\CurrentVersion\\Uninstall"@,
    }
}

pub fn hive_path(h: UninstallHive) -> (p: &'static str)
    ensures
        p@ == hive_path_text(h),
{
    match h {
        UninstallHive::LocalMachineWow => "Software\\WOW6432Node\\Microsoft\\Windows\\CurrentVersion\\Uninstall",
        _ => "Software\\Microsoft\\Windows\\CurrentVersion\\Uninstall",
    }
}

/// A key's name tagged with its hive: `<tag>\<key>`, so that keys of the
/// three hives can be told apart in one list.
pub fn tagged_key(h: UninstallHive, key: &str) -> (t: String)
    ensures
        t@ == hive_tag_text(h) + "\\"@ + key@,
{
    let mut t = String::from_str(
        match h {
            UninstallHive::CurrentUser => "hkcu",
            UninstallHive::LocalMachine => "hklm",
            UninstallHive::LocalMachineWow => "wow",
        },
    );
    t.append("\\");
    t.append(key);
    t
}

/// The hive and key of a tagged name: the tag before the first `\`, the key
/// after it; none without a `\`.
pub fn untag_key(tagged: &str) -> (r: Option<(UninstallHive, String)>)
    ensures
        ({
            let parts = split_by(tagged@, CharSet::One('\\'));
            if parts.len() >= 2 {
                r matches Some((h, key)) && h == hive_of_tag(parts[0]) && key@ == tagged@.skip(
                    parts[0].len() + 1 as int,
                )
            } else {
                r is None
            }
        }),
{
    let v = chars_of(tagged);
    let parts = split_chars(&v, CharSet::One('\\'));
    proof {
        lemma_first_piece_len(v@, '\\');
        lemma_split_by_nonempty(v@, CharSet::One('\\'));
    }
    if parts.len() < 2 {
        return None;
    }
    assert(parts@[0]@ == pieces_view(parts@)[0]);
    assert(pieces_view(parts@).len() == parts.len());
    let tag = &parts[0];
    let end = tag.len();
    assert(end < v.len());
    let rest = slice_chars(&v, end + 1, v.len());
    assert(rest@ == tagged@.skip(end + 1));
    let t = string_of(tag);
    let h = if same_text(t.as_str(), "hkcu") {
        UninstallHive::CurrentUser
    } else if same_text(t.as_str(), "hklm") {
        UninstallHive::LocalMachine
    } else {
        UninstallHive::LocalMachineWow
    };
    Some((h, string_of(&rest)))
}

} // verus!
