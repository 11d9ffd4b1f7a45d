//! Detection of installed apps: what each probe's answer becomes, and the
//! parsing of what the package managers print.
use crate::glob::{lowercased, to_lower};
use crate::paths::{parent_or_empty, parent_text};
use crate::pkg::{norm_chars, normalized};
use crate::registry::answered;
use crate::text::{
    chars_of, copy_chars, ends_with, has_prefix, has_suffix, lemma_split_by_nonempty,
    lines_chars, lines_of, pieces_view, split_by, split_chars, starts_with, string_of, trim_by,
    trim_chars, words_chars, words_of, CharSet,
};
use crate::version::{first_version, version_from_filename};
use vstd::prelude::*;
use vstd::string::*;

verus! {

/// What the front end asks to detect.
#[derive(Clone, Debug)]
pub struct DetectSpec {
    pub id: String,
    /// The `DisplayName` expected in the registry (Windows), normally the
    /// product name.
    pub name: String,
    /// The executable's name, such as "LocalOffice.exe".
    pub exe: String,
}

/// What detection found. `source` says where: "registry" (Windows), "hub"
/// (the Hub's own record), "appimage" (found in ~/Applications), "pacman" or
/// "deb"; empty when not installed.
#[derive(Clone, Debug)]
pub struct InstalledInfo {
    pub id: String,
    pub installed: bool,
    pub version: String,
    pub location: String,
    pub exe: String,
    pub source: String,
}

/// Where an installed app was found, with what that source tells.
pub enum Found {
    /// In the registry's `Uninstall` keys.
    Registry { version: String, exe: String, location: String },
    /// In the Hub's own record of the AppImages it installed.
    Hub { version: String, path: String },
    /// An AppImage in ~/Applications.
    AppImage { version: String, path: String },
    /// A pacman package.
    Pacman { version: String, exe: String },
    /// A dpkg package.
    Deb { version: String, exe: String },
}

/// `info` reports the app `id` as not installed: every other field empty.
pub open spec fn is_not_installed(info: InstalledInfo, id: Seq<char>) -> bool {
    &&& info.id@ == id
    &&& !info.installed
    &&& info.version@.len() == 0
    &&& info.location@.len() == 0
    &&& info.exe@.len() == 0
    &&& info.source@.len() == 0
}

/// `info` reports the app `id` as installed with these fields.
pub open spec fn is_installed_as(
    info: InstalledInfo,
    id: Seq<char>,
    version: Seq<char>,
    location: Seq<char>,
    exe: Seq<char>,
    source: Seq<char>,
) -> bool {
    &&& info.id@ == id
    &&& info.installed
    &&& info.version@ == version
    &&& info.location@ == location
    &&& info.exe@ == exe
    &&& info.source@ == source
}

pub fn not_installed(id: String) -> (info: InstalledInfo)
    ensures
        is_not_installed(info, id@),
{
    InstalledInfo {
        id,
        installed: false,
        version: String::new(),
        location: String::new(),
        exe: String::new(),
        source: String::new(),
    }
}

/// What the detection of `id` reports for what was found. An AppImage (the
/// Hub's or a foreign one) is located in its folder; a package has no
/// location.
pub open spec fn detection_report(info: InstalledInfo, id: Seq<char>, found: Option<Found>) -> bool {
    match found {
        None => is_not_installed(info, id),
        Some(Found::Registry { version, exe, location }) => is_installed_as(
            info,
            id,
            version@,
            location@,
            exe@,
            "registry"@,
        ),
        Some(Found::Hub { version, path }) => is_installed_as(
            info,
            id,
            version@,
            parent_or_empty(path@),
            path@,
            "hub"@,
        ),
        Some(Found::AppImage { version, path }) => is_installed_as(
            info,
            id,
            version@,
            parent_or_empty(path@),
            path@,
            "appimage"@,
        ),
        Some(Found::Pacman { version, exe }) => is_installed_as(
            info,
            id,
            version@,
            Seq::empty(),
            exe@,
            "pacman"@,
        ),
        Some(Found::Deb { version, exe }) => is_installed_as(
            info,
            id,
            version@,
            Seq::empty(),
            exe@,
            "deb"@,
        ),
    }
}

/// The report of a detection (`detection_report`).
pub fn detected_info(id: String, found: Option<Found>) -> (info: InstalledInfo)
    ensures
        detection_report(info, id@, found),
{
    match found {
        None => not_installed(id),
        Some(Found::Registry { version, exe, location }) => InstalledInfo {
            id,
            installed: true,
            version,
            location,
            exe,
            source: String::from_str("registry"),
        },
        Some(Found::Hub { version, path }) => {
            let location = parent_text(path.as_str());
            InstalledInfo {
                id,
                installed: true,
                version,
                location,
                exe: path,
                source: String::from_str("hub"),
            }
        },
        Some(Found::AppImage { version, path }) => {
            let location = parent_text(path.as_str());
            InstalledInfo {
                id,
                installed: true,
                version,
                location,
                exe: path,
                source: String::from_str("appimage"),
            }
        },
        Some(Found::Pacman { version, exe }) => InstalledInfo {
            id,
            installed: true,
            version,
            location: String::new(),
            exe,
            source: String::from_str("pacman"),
        },
        Some(Found::Deb { version, exe }) => InstalledInfo {
            id,
            installed: true,
            version,
            location: String::new(),
            exe,
            source: String::from_str("deb"),
        },
    }
}

/// Where an install that just finished put the app.
#[derive(Clone, Copy, Debug, PartialEq, Eq, Structural)]
pub enum InstallOrigin {
    /// A Windows installer ran: the registry is where the app is known.
    Registry,
    /// The Hub copied an AppImage.
    AppImage,
    /// pacman installed the package.
    Pacman,
    /// apt installed the package.
    Deb,
}

/// The `source` an origin is reported under.
pub open spec fn origin_source(origin: InstallOrigin) -> Seq<char> {
    match origin {
        InstallOrigin::Registry => "registry"@,
        InstallOrigin::AppImage => "hub"@,
        InstallOrigin::Pacman => "pacman"@,
        InstallOrigin::Deb => "deb"@,
    }
}

/// What an install reports when detection does not find the app: the app
/// as installed with the release's version, nothing known of its location
/// or executable, and the source its install origin gives.
pub fn installed_or_reported(
    detected: InstalledInfo,
    id: String,
    version: String,
    origin: InstallOrigin,
) -> (info: InstalledInfo)
    ensures
        detected.installed ==> info == detected,
        !detected.installed ==> is_installed_as(
            info,
            id@,
            version@,
            Seq::empty(),
            Seq::empty(),
            origin_source(origin),
        ),
        (detected.installed <==> detected.source@.len() > 0) ==> (info.installed <==> info.source@.len() > 0),
{
    if detected.installed {
        return detected;
    }
    proof {
        reveal_strlit("registry");
        reveal_strlit("hub");
        reveal_strlit("pacman");
        reveal_strlit("deb");
    }
    let source = String::from_str(
        match origin {
            InstallOrigin::Registry => "registry",
            InstallOrigin::AppImage => "hub",
            InstallOrigin::Pacman => "pacman",
            InstallOrigin::Deb => "deb",
        },
    );
    InstalledInfo {
        id,
        installed: true,
        version,
        location: String::new(),
        exe: String::new(),
        source,
    }
}

/// The version an AppImage in ~/Applications reports for the app `name`:
/// the file has to end in `.appimage` and start with the app's name (both
/// lowercased); its version is read from the file name, empty when none is.
pub open spec fn appimage_version(fname: Seq<char>, name: Seq<char>) -> Option<Seq<char>> {
    let lower = lowercased(fname);
    if ends_with(lower, ".appimage"@) && starts_with(lower, lowercased(name)) {
        match first_version(fname) {
            Some(v) => Some(v),
            None => Some(Seq::empty()),
        }
    } else {
        None
    }
}

pub fn appimage_match(fname: &str, name: &str) -> (r: Option<String>)
    ensures
        match r {
            Some(v) => appimage_version(fname@, name@) == Some(v@),
            None => appimage_version(fname@, name@) is None,
        },
{
    let lower = to_lower(fname);
    let prefix = to_lower(name);
    let lv = chars_of(lower.as_str());
    let pv = chars_of(prefix.as_str());
    let ext = chars_of(".appimage");
    if has_suffix(&lv, &ext) && has_prefix(&lv, &pv) {
        match version_from_filename(fname) {
            Some(v) => Some(v),
            None => Some(String::new()),
        }
    } else {
        None
    }
}

/// The lines of `s`, each trimmed of whitespace.
pub open spec fn trimmed_lines(s: Seq<char>) -> Seq<Seq<char>> {
    lines_of(s).map_values(|l: Seq<char>| trim_by(l, CharSet::Whitespace))
}

fn trimmed_lines_chars(v: &Vec<char>) -> (r: Vec<Vec<char>>)
    ensures
        pieces_view(r@) == trimmed_lines(v@),
{
    let ls = lines_chars(v);
    let ghost lv = pieces_view(ls@);
    let mut r: Vec<Vec<char>> = Vec::new();
    let mut i: usize = 0;
    while i < ls.len()
        invariant
            i <= ls.len(),
            lv == pieces_view(ls@),
            lv == lines_of(v@),
            pieces_view(r@) == lines_of(v@).take(i as int).map_values(
                |l: Seq<char>| trim_by(l, CharSet::Whitespace),
            ),
        decreases ls.len() - i,
    {
        let t = trim_chars(&ls[i], CharSet::Whitespace);
        assert(t@ == trim_by(lv[i as int], CharSet::Whitespace));
        let ghost prev = pieces_view(r@);
        r.push(t);
        assert(pieces_view(r@) =~= prev.push(t@));
        assert(lines_of(v@).take(i + 1).map_values(|l: Seq<char>| trim_by(l, CharSet::Whitespace))
            =~= lines_of(v@).take(i as int).map_values(
            |l: Seq<char>| trim_by(l, CharSet::Whitespace),
        ).push(t@));
        i += 1;
    }
    assert(lines_of(v@).take(ls.len() as int) == lines_of(v@));
    r
}

/// The package a manager lists for the app `name`: the first listed line
/// (trimmed) whose normalized form is the app's; with `skip_blank`, blank
/// lines never count.
pub open spec fn is_listed_package(
    ls: Seq<Seq<char>>,
    name: Seq<char>,
    skip_blank: bool,
    i: int,
) -> bool {
    (!skip_blank || ls[i].len() > 0) && normalized(ls[i]) == normalized(name)
}

pub fn find_package(listing: &str, name: &str, skip_blank: bool) -> (r: Option<String>)
    ensures
        ({
            let ls = trimmed_lines(listing@);
            match r {
                Some(p) => exists|i: int|
                    0 <= i < ls.len() && is_listed_package(ls, name@, skip_blank, i) && ls[i] == p@
                        && forall|j: int|
                        0 <= j < i ==> !#[trigger] is_listed_package(ls, name@, skip_blank, j),
                None => forall|j: int|
                    0 <= j < ls.len() ==> !#[trigger] is_listed_package(ls, name@, skip_blank, j),
            }
        }),
{
    let v = chars_of(listing);
    let ls = trimmed_lines_chars(&v);
    let ghost lv = pieces_view(ls@);
    let nv = chars_of(name);
    let target = norm_chars(&nv);
    let mut i: usize = 0;
    while i < ls.len()
        invariant
            i <= ls.len(),
            lv == pieces_view(ls@),
            lv == trimmed_lines(listing@),
            target@ == normalized(name@),
            forall|j: int| 0 <= j < i ==> !#[trigger] is_listed_package(lv, name@, skip_blank, j),
        decreases ls.len() - i,
    {
        let l = &ls[i];
        assert(l@ == lv[i as int]);
        if !skip_blank || l.len() > 0 {
            let n = norm_chars(l);
            if crate::text::same_chars(&n, &target) {
                assert(is_listed_package(lv, name@, skip_blank, i as int));
                return Some(string_of(l));
            }
        }
        i += 1;
    }
    None
}

/// An executable path in a package's file list: under `/usr/bin/` and not
/// the directory itself.
pub open spec fn is_bin_path(p: Seq<char>) -> bool {
    starts_with(p, "/usr/bin/"@) && !ends_with(p, "/"@)
}

/// The executable in `pacman -Ql` output ("<pkg> <path>" per line): the
/// first second column that is a path under `/usr/bin/`.
pub open spec fn is_pacman_exe_line(ls: Seq<Seq<char>>, i: int) -> bool {
    words_of(ls[i]).len() >= 2 && is_bin_path(words_of(ls[i])[1])
}

pub fn pacman_exe(listing: &str) -> (r: String)
    ensures
        ({
            let ls = lines_of(listing@);
            ||| (exists|i: int|
                0 <= i < ls.len() && is_pacman_exe_line(ls, i) && r@ == words_of(ls[i])[1]
                    && forall|j: int| 0 <= j < i ==> !#[trigger] is_pacman_exe_line(ls, j))
            ||| (r@.len() == 0 && forall|j: int|
                0 <= j < ls.len() ==> !#[trigger] is_pacman_exe_line(ls, j))
        }),
{
    let v = chars_of(listing);
    let ls = lines_chars(&v);
    let ghost lv = pieces_view(ls@);
    let bin = chars_of("/usr/bin/");
    let slash = chars_of("/");
    let mut i: usize = 0;
    while i < ls.len()
        invariant
            i <= ls.len(),
            lv == pieces_view(ls@),
            lv == lines_of(listing@),
            bin@ == "/usr/bin/"@,
            slash@ == "/"@,
            forall|j: int| 0 <= j < i ==> !#[trigger] is_pacman_exe_line(lv, j),
        decreases ls.len() - i,
    {
        assert(ls@[i as int]@ == lv[i as int]);
        let w = words_chars(&ls[i]);
        if w.len() >= 2 {
            let p = &w[1];
            assert(p@ == words_of(lv[i as int])[1]);
            if has_prefix(p, &bin) && !has_suffix(p, &slash) {
                assert(is_pacman_exe_line(lv, i as int));
                return string_of(p);
            }
        }
        i += 1;
    }
    String::new()
}

/// The executable in `dpkg -L` output: the first line under `/usr/bin/`.
pub open spec fn is_dpkg_exe_line(ls: Seq<Seq<char>>, i: int) -> bool {
    starts_with(ls[i], "/usr/bin/"@)
}

/// `r` is what `dpkg_exe` takes from `listing`: the first executable line,
/// or nothing where there is none.
pub open spec fn dpkg_exe_found(listing: Seq<char>, r: Seq<char>) -> bool {
    let ls = lines_of(listing);
    ||| (exists|i: int|
        0 <= i < ls.len() && is_dpkg_exe_line(ls, i) && r == ls[i] && forall|j: int|
            0 <= j < i ==> !#[trigger] is_dpkg_exe_line(ls, j))
    ||| (r.len() == 0 && forall|j: int| 0 <= j < ls.len() ==> !#[trigger] is_dpkg_exe_line(ls, j))
}

pub fn dpkg_exe(listing: &str) -> (r: String)
    ensures
        dpkg_exe_found(listing@, r@),
{
    let v = chars_of(listing);
    let ls = lines_chars(&v);
    let ghost lv = pieces_view(ls@);
    let bin = chars_of("/usr/bin/");
    let mut i: usize = 0;
    while i < ls.len()
        invariant
            i <= ls.len(),
            lv == pieces_view(ls@),
            lv == lines_of(listing@),
            bin@ == "/usr/bin/"@,
            forall|j: int| 0 <= j < i ==> !#[trigger] is_dpkg_exe_line(lv, j),
        decreases ls.len() - i,
    {
        assert(ls@[i as int]@ == lv[i as int]);
        if has_prefix(&ls[i], &bin) {
            assert(is_dpkg_exe_line(lv, i as int));
            return string_of(&ls[i]);
        }
        i += 1;
    }
    String::new()
}

/// The package column of a `dpkg-query -W -f '${Package}\t${Version}\n'`
/// line.
pub open spec fn dpkg_package(line: Seq<char>) -> Seq<char> {
    split_by(line, CharSet::One('\t'))[0]
}

/// The version column of such a line, without epoch and Debian revision;
/// empty when the line has no second column.
pub open spec fn dpkg_version(line: Seq<char>) -> Seq<char> {
    let cols = split_by(line, CharSet::One('\t'));
    let raw = if cols.len() >= 2 {
        cols[1]
    } else {
        Seq::empty()
    };
    split_by(split_by(raw, CharSet::One(':')).last(), CharSet::One('-'))[0]
}

/// The line of the dpkg listing that is the app `name`'s package.
pub open spec fn is_dpkg_line_for(ls: Seq<Seq<char>>, name: Seq<char>, i: int) -> bool {
    normalized(dpkg_package(ls[i])) == normalized(name)
}

/// The package and version of the app `name` in a dpkg listing: the first
/// line whose package, normalized, is the app's name normalized.
pub fn dpkg_entry(listing: &str, name: &str) -> (r: Option<(String, String)>)
    ensures
        ({
            let ls = lines_of(listing@);
            match r {
                Some((p, v)) => exists|i: int|
                    0 <= i < ls.len() && is_dpkg_line_for(ls, name@, i) && p@ == dpkg_package(
                        ls[i],
                    ) && v@ == dpkg_version(ls[i]) && forall|j: int|
                        0 <= j < i ==> !#[trigger] is_dpkg_line_for(ls, name@, j),
                None => forall|j: int| 0 <= j < ls.len() ==> !#[trigger] is_dpkg_line_for(ls, name@, j),
            }
        }),
{
    let v = chars_of(listing);
    let ls = lines_chars(&v);
    let ghost lv = pieces_view(ls@);
    let nv = chars_of(name);
    let target = norm_chars(&nv);
    let mut i: usize = 0;
    while i < ls.len()
        invariant
            i <= ls.len(),
            lv == pieces_view(ls@),
            lv == lines_of(listing@),
            target@ == normalized(name@),
            forall|j: int| 0 <= j < i ==> !#[trigger] is_dpkg_line_for(lv, name@, j),
        decreases ls.len() - i,
    {
        let line = &ls[i];
        assert(line@ == lv[i as int]);
        let cols = split_chars(line, CharSet::One('\t'));
        proof {
            lemma_split_by_nonempty(line@, CharSet::One('\t'));
        }
        let ghost cv = pieces_view(cols@);
        assert(cols@[0]@ == cv[0]);
        let n = norm_chars(&cols[0]);
        if crate::text::same_chars(&n, &target) {
            assert(is_dpkg_line_for(lv, name@, i as int));
            let raw = if cols.len() >= 2 {
                assert(cols@[1]@ == cv[1]);
                copy_chars(&cols[1])
            } else {
                Vec::new()
            };
            let by_colon = split_chars(&raw, CharSet::One(':'));
            proof {
                lemma_split_by_nonempty(raw@, CharSet::One(':'));
            }
            let last = &by_colon[by_colon.len() - 1];
            assert(last@ == pieces_view(by_colon@).last());
            let by_dash = split_chars(last, CharSet::One('-'));
            proof {
                lemma_split_by_nonempty(last@, CharSet::One('-'));
            }
            assert(by_dash@[0]@ == pieces_view(by_dash@)[0]);
            let pkg = string_of(&cols[0]);
            let ver = string_of(&by_dash[0]);
            return Some((pkg, ver));
        }
        i += 1;
    }
    None
}

/// A detection's `source` is empty exactly when the app is not installed.
pub proof fn law_source_tells_installed(info: InstalledInfo, id: Seq<char>, found: Option<Found>)
    requires
        detection_report(info, id, found),
    ensures
        info.installed <==> info.source@.len() > 0,
{
    reveal_strlit("registry");
    reveal_strlit("hub");
    reveal_strlit("appimage");
    reveal_strlit("pacman");
    reveal_strlit("deb");
}

/// What the probes answer, asked in their order of precedence until one
/// finds the app: an AppImage in ~/Applications (version, path), then
/// pacman (version, exe), then dpkg (version, exe).
pub open spec fn probe_report<
    A: Fn() -> Option<(String, String)>,
    P: Fn() -> Option<(String, String)>,
    D: Fn() -> Option<(String, String)>,
>(info: InstalledInfo, id: Seq<char>, appimage: A, pacman: P, deb: D) -> bool {
    exists|a: Option<(String, String)>|
        #[trigger] call_ensures(appimage, (), a) && match a {
            Some(x) => detection_report(info, id, Some(Found::AppImage { version: x.0, path: x.1 })),
            None => exists|p: Option<(String, String)>|
                #[trigger] call_ensures(pacman, (), p) && match p {
                    Some(x) => detection_report(info, id, Some(Found::Pacman { version: x.0, exe: x.1 })),
                    None => exists|d: Option<(String, String)>|
                        #[trigger] call_ensures(deb, (), d) && match d {
                            Some(x) => detection_report(info, id, Some(Found::Deb { version: x.0, exe: x.1 })),
                            None => detection_report(info, id, None),
                        },
                },
        }
}

/// Detection on Linux, in order of precedence: the Hub's own record of an
/// AppImage (version, path) while that file exists, then the probes of
/// `probe_report`, each asked only when those before it found nothing; the
/// first that finds the app answers.
pub fn linux_detection<
    F: Fn(&String) -> bool,
    A: Fn() -> Option<(String, String)>,
    P: Fn() -> Option<(String, String)>,
    D: Fn() -> Option<(String, String)>,
>(
    id: String,
    recorded: Option<(String, String)>,
    file_exists: F,
    appimage: A,
    pacman: P,
    deb: D,
) -> (info: InstalledInfo)
    requires
        forall|s: &String| call_requires(file_exists, (s,)),
        call_requires(appimage, ()),
        call_requires(pacman, ()),
        call_requires(deb, ()),
    ensures
        ({
            ||| (recorded matches Some(r) && answered(file_exists, r.1@, true) && detection_report(
                info,
                id@,
                Some(Found::Hub { version: r.0, path: r.1 }),
            ))
            ||| ((recorded matches Some(r) ==> answered(file_exists, r.1@, false)) && probe_report(
                info,
                id@,
                appimage,
                pacman,
                deb,
            ))
        }),
{
    match recorded {
        Some((version, path)) => {
            let here = file_exists(&path);
            if here {
                return detected_info(id, Some(Found::Hub { version, path }));
            }
            assert(answered(file_exists, path@, false));
        },
        None => {},
    }
    let a = appimage();
    match a {
        Some((version, path)) => detected_info(id, Some(Found::AppImage { version, path })),
        None => {
            let p = pacman();
            match p {
                Some((version, exe)) => detected_info(id, Some(Found::Pacman { version, exe })),
                None => {
                    let d = deb();
                    match d {
                        Some((version, exe)) => detected_info(id, Some(Found::Deb { version, exe })),
                        None => detected_info(id, None),
                    }
                },
            }
        },
    }
}

/// Law: the executable taken from a `dpkg -L` listing is the first of its
/// lines that lies strictly inside `/usr/bin` (it starts with `/usr/bin/`),
/// never the directory line `/usr/bin` itself; where no line lies inside
/// `/usr/bin`, nothing is taken.
pub proof fn law_dpkg_exe_is_inside_usr_bin(listing: Seq<char>, r: Seq<char>)
    requires
        dpkg_exe_found(listing, r),
    ensures
        r != "/usr/bin"@,
        ({
            let ls = lines_of(listing);
            ||| (exists|i: int|
                0 <= i < ls.len() && starts_with(ls[i], "/usr/bin/"@) && r == ls[i] && forall|j: int|
                    0 <= j < i ==> !starts_with(#[trigger] ls[j], "/usr/bin/"@))
            ||| (r.len() == 0 && forall|j: int|
                0 <= j < ls.len() ==> !starts_with(#[trigger] ls[j], "/usr/bin/"@))
        }),
{
    reveal_strlit("/usr/bin");
    reveal_strlit("/usr/bin/");
    let ls = lines_of(listing);
    if r.len() > 0 {
        let i = choose|i: int|
            0 <= i < ls.len() && is_dpkg_exe_line(ls, i) && r == ls[i] && forall|j: int|
                0 <= j < i ==> !#[trigger] is_dpkg_exe_line(ls, j);
        assert forall|j: int| 0 <= j < i implies !starts_with(#[trigger] ls[j], "/usr/bin/"@) by {
            assert(!is_dpkg_exe_line(ls, j));
        }
        assert(starts_with(r, "/usr/bin/"@));
        assert(r.len() >= 9);
    } else {
        assert forall|j: int| 0 <= j < ls.len() implies !starts_with(#[trigger] ls[j], "/usr/bin/"@) by {
            assert(!is_dpkg_exe_line(ls, j));
        }
    }
}

} // verus!
