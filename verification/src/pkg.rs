//! System packages on Linux: which manager, which release asset, which
//! command. Nothing here runs anything; every decision is a function of its
//! arguments, proved against its contract.
use crate::text::{in_set, lemma_split_pieces_free, 
    ascii_lower, char_ascii_lower, char_is_alnum, char_is_ws, chars_of, is_ascii_alnum, is_blank, is_ws,
    lemma_split_by_nonempty, lines_chars, lines_of, pieces_view, split_by, split_chars, string_of,
    words_chars, words_of, CharSet,
};
use vstd::prelude::*;
use vstd::string::*;

verus! {

/// The package manager of the machine. `NoManager` means none is known, and
/// the AppImage path is taken instead.
#[derive(Clone, Copy, PartialEq, Eq, Debug, Structural)]
pub enum PkgManager {
    Pacman,
    Apt,
    NoManager,
}

/// The short name the front end sees (and that comes back as the detection
/// `source`).
pub open spec fn manager_name(m: PkgManager) -> Seq<char> {
    match m {
        PkgManager::Pacman => "pacman"@,
        PkgManager::Apt => "apt"@,
        PkgManager::NoManager => ""@,
    }
}

impl PkgManager {
    pub fn as_str(self) -> (s: &'static str)
        ensures
            s@ == manager_name(self),
    {
        match self {
            PkgManager::Pacman => "pacman",
            PkgManager::Apt => "apt",
            PkgManager::NoManager => "",
        }
    }
}

/// Which manager to use, given which binaries exist. Pacman wins over apt: a
/// machine with pacman is an Arch system, whatever else is installed.
pub fn pick_manager(has_pacman: bool, has_apt: bool) -> (m: PkgManager)
    ensures
        m == (if has_pacman {
            PkgManager::Pacman
        } else if has_apt {
            PkgManager::Apt
        } else {
            PkgManager::NoManager
        }),
{
    if has_pacman {
        PkgManager::Pacman
    } else if has_apt {
        PkgManager::Apt
    } else {
        PkgManager::NoManager
    }
}

/// The glob of the release asset that serves a machine with manager `m`.
pub open spec fn manager_glob(m: PkgManager) -> Seq<char> {
    match m {
        PkgManager::Pacman => "*.pkg.tar.zst"@,
        PkgManager::Apt => "*_amd64.deb"@,
        PkgManager::NoManager => "*_amd64.AppImage"@,
    }
}

pub fn asset_glob(m: PkgManager) -> (g: &'static str)
    ensures
        g@ == manager_glob(m),
{
    match m {
        PkgManager::Pacman => "*.pkg.tar.zst",
        PkgManager::Apt => "*_amd64.deb",
        PkgManager::NoManager => "*_amd64.AppImage",
    }
}

/// The globs to try, in order, for a release asset: the native package of
/// the machine's manager first, then the pattern the catalogue asked for.
pub open spec fn globs_in_order(m: PkgManager, requested: Seq<char>) -> Seq<Seq<char>> {
    match m {
        PkgManager::NoManager => seq![requested],
        _ => seq![manager_glob(m), requested],
    }
}

pub fn asset_globs_in_order(m: PkgManager, requested: &str) -> (r: Vec<String>)
    ensures
        r.deep_view() == globs_in_order(m, requested@),
{
    let mut r: Vec<String> = Vec::new();
    match m {
        PkgManager::NoManager => {},
        _ => {
            r.push(String::from_str(asset_glob(m)));
        },
    }
    r.push(String::from_str(requested));
    assert(r.deep_view() =~= globs_in_order(m, requested@));
    r
}

/// A path argument that the manager cannot read as an option.
pub open spec fn is_safe_path_arg(p: Seq<char>) -> bool {
    p.len() > 0 && p[0] != '-'
}

pub fn safe_path_arg(path: &str) -> (b: bool)
    ensures
        b == is_safe_path_arg(path@),
{
    if path.is_empty() {
        return false;
    }
    path.get_char(0) != '-'
}

/// The alphabet of Debian and Arch package names.
pub open spec fn is_pkg_name_char(c: char) -> bool {
    is_ascii_alnum(c) || c == '-' || c == '_' || c == '.' || c == '+'
}

/// A package name that is safe to hand to a removal: not empty, not an
/// option, at most 128 characters, and only the package-name alphabet (all of
/// it ASCII, so characters and bytes count the same).
pub open spec fn is_valid_pkg_name(s: Seq<char>) -> bool {
    &&& s.len() > 0
    &&& s[0] != '-'
    &&& s.len() <= 128
    &&& forall|i: int| 0 <= i < s.len() ==> is_pkg_name_char(#[trigger] s[i])
}

pub fn valid_pkg_name(name: &str) -> (b: bool)
    ensures
        b == is_valid_pkg_name(name@),
{
    let v = chars_of(name);
    if v.len() == 0 || v[0] == '-' || v.len() > 128 {
        return false;
    }
    let mut i: usize = 0;
    while i < v.len()
        invariant
            i <= v.len(),
            v@ == name@,
            forall|j: int| 0 <= j < i ==> is_pkg_name_char(#[trigger] v@[j]),
        decreases v.len() - i,
    {
        let c = v[i];
        if !(char_is_alnum(c) || c == '-' || c == '_' || c == '.' || c == '+') {
            assert(!is_pkg_name_char(v@[i as int]));
            return false;
        }
        i += 1;
    }
    true
}

/// The views of an optional list of strings.
pub open spec fn opt_texts(r: Option<Vec<String>>) -> Option<Seq<Seq<char>>> {
    match r {
        Some(v) => Some(v.deep_view()),
        None => None,
    }
}

/// The command that installs a package file, `pkexec` first; none without a
/// manager or when the path could be read as an option.
pub open spec fn install_args(m: PkgManager, file: Seq<char>) -> Option<Seq<Seq<char>>> {
    if !is_safe_path_arg(file) {
        None
    } else {
        match m {
            PkgManager::Pacman => Some(seq!["pkexec"@, "pacman"@, "-U"@, "--noconfirm"@, file]),
            PkgManager::Apt => Some(seq!["pkexec"@, "apt-get"@, "install"@, "-y"@, file]),
            PkgManager::NoManager => None,
        }
    }
}

/// The command that removes a package by name, `pkexec` first; none without
/// a manager or for a name outside `is_valid_pkg_name`.
pub open spec fn remove_args(m: PkgManager, pkg: Seq<char>) -> Option<Seq<Seq<char>>> {
    if !is_valid_pkg_name(pkg) {
        None
    } else {
        match m {
            PkgManager::Pacman => Some(seq!["pkexec"@, "pacman"@, "-R"@, "--noconfirm"@, pkg]),
            PkgManager::Apt => Some(seq!["pkexec"@, "apt-get"@, "remove"@, "-y"@, pkg]),
            PkgManager::NoManager => None,
        }
    }
}

fn five_args(a: &str, b: &str, c: &str, d: &str, e: &str) -> (r: Vec<String>)
    ensures
        r.deep_view() == seq![a@, b@, c@, d@, e@],
{
    let mut r: Vec<String> = Vec::new();
    r.push(String::from_str(a));
    r.push(String::from_str(b));
    r.push(String::from_str(c));
    r.push(String::from_str(d));
    r.push(String::from_str(e));
    assert(r.deep_view() =~= seq![a@, b@, c@, d@, e@]);
    r
}

pub fn install_cmd(m: PkgManager, file: &str) -> (r: Option<Vec<String>>)
    ensures
        opt_texts(r) == install_args(m, file@),
{
    if !safe_path_arg(file) {
        return None;
    }
    match m {
        PkgManager::Pacman => Some(five_args("pkexec", "pacman", "-U", "--noconfirm", file)),
        PkgManager::Apt => Some(five_args("pkexec", "apt-get", "install", "-y", file)),
        PkgManager::NoManager => None,
    }
}

pub fn remove_cmd(m: PkgManager, pkg: &str) -> (r: Option<Vec<String>>)
    ensures
        opt_texts(r) == remove_args(m, pkg@),
{
    if !valid_pkg_name(pkg) {
        return None;
    }
    match m {
        PkgManager::Pacman => Some(five_args("pkexec", "pacman", "-R", "--noconfirm", pkg)),
        PkgManager::Apt => Some(five_args("pkexec", "apt-get", "remove", "-y", pkg)),
        PkgManager::NoManager => None,
    }
}

/// The arguments after `sudo` in the command a person would type: every
/// argument but `pkexec`, each after a space.
pub open spec fn manual_tail(args: Seq<Seq<char>>) -> Seq<char>
    decreases args.len(),
{
    if args.len() == 0 {
        Seq::empty()
    } else {
        manual_tail(args.drop_last()) + (if args.last() == "pkexec"@ {
            Seq::empty()
        } else {
            seq![' '] + args.last()
        })
    }
}

/// The same command written for a person to copy into a terminal: `pkexec`
/// replaced by a leading `sudo`.
pub fn as_manual_command(cmd: &[String]) -> (s: String)
    ensures
        s@ == "sudo"@ + manual_tail(cmd.deep_view()),
{
    let pk = String::from_str("pkexec");
    let mut s = String::from_str("sudo");
    let ghost dv = cmd.deep_view();
    let mut i: usize = 0;
    while i < cmd.len()
        invariant
            i <= cmd.len(),
            dv == cmd.deep_view(),
            pk@ == "pkexec"@,
            s@ == "sudo"@ + manual_tail(dv.take(i as int)),
        decreases cmd.len() - i,
    {
        let a = &cmd[i];
        assert(dv.take(i + 1).drop_last() == dv.take(i as int));
        assert(dv[i as int] == a@);
        if !(*a == pk) {
            s.append(" ");
            s.append(a.as_str());
            proof {
                reveal_strlit(" ");
            }
            assert(s@ =~= "sudo"@ + manual_tail(dv.take(i + 1)));
        } else {
            assert(s@ =~= "sudo"@ + manual_tail(dv.take(i + 1)));
        }
        i += 1;
    }
    assert(dv.take(cmd.len() as int) == dv);
    s
}

/// A name reduced to its ASCII letters and digits, lowercased: "TaylorHub"
/// and "taylor-hub" reduce to the same text.
pub open spec fn normalized(s: Seq<char>) -> Seq<char>
    decreases s.len(),
{
    if s.len() == 0 {
        Seq::empty()
    } else {
        normalized(s.drop_last()) + (if is_ascii_alnum(s.last()) {
            seq![ascii_lower(s.last())]
        } else {
            Seq::empty()
        })
    }
}

pub fn norm_chars(v: &Vec<char>) -> (r: Vec<char>)
    ensures
        r@ == normalized(v@),
{
    let mut r: Vec<char> = Vec::new();
    let mut i: usize = 0;
    while i < v.len()
        invariant
            i <= v.len(),
            r@ == normalized(v@.take(i as int)),
        decreases v.len() - i,
    {
        assert(v@.take(i + 1).drop_last() == v@.take(i as int));
        let c = v[i];
        if char_is_alnum(c) {
            r.push(char_ascii_lower(c));
        }
        assert(r@ =~= normalized(v@.take(i + 1)));
        i += 1;
    }
    assert(v@.take(v.len() as int) == v@);
    r
}

pub fn norm_name(s: &str) -> (r: String)
    ensures
        r@ == normalized(s@),
{
    let v = chars_of(s);
    let n = norm_chars(&v);
    string_of(&n)
}

/// The first line of `ls` that holds something other than whitespace.
pub open spec fn first_nonblank(ls: Seq<Seq<char>>) -> Option<Seq<char>>
    decreases ls.len(),
{
    if ls.len() == 0 {
        None
    } else if !is_blank(ls[0]) {
        Some(ls[0])
    } else {
        first_nonblank(ls.drop_first())
    }
}

/// The version in the output of `pacman -Q <pkg>` ("<name> <version>"): the
/// second word of the first non-blank line, without the epoch (up to the
/// last `:`) and without the `pkgrel` (from the first `-`); none when that
/// leaves nothing.
pub open spec fn pacman_version(out: Seq<char>) -> Option<Seq<char>> {
    match first_nonblank(lines_of(out)) {
        None => None,
        Some(line) => {
            let w = words_of(line);
            if w.len() < 2 {
                None
            } else {
                let no_epoch = split_by(w[1], CharSet::One(':')).last();
                let v = split_by(no_epoch, CharSet::One('-'))[0];
                if v.len() == 0 {
                    None
                } else {
                    Some(v)
                }
            }
        },
    }
}

/// The view of an optional string.
pub open spec fn opt_text(r: Option<String>) -> Option<Seq<char>> {
    match r {
        Some(s) => Some(s@),
        None => None,
    }
}

fn blank_chars(l: &Vec<char>) -> (b: bool)
    ensures
        b == is_blank(l@),
{
    let mut i: usize = 0;
    while i < l.len()
        invariant
            i <= l.len(),
            forall|j: int| 0 <= j < i ==> is_ws(#[trigger] l@[j]),
        decreases l.len() - i,
    {
        if !char_is_ws(l[i]) {
            return false;
        }
        i += 1;
    }
    true
}

/// The index of the first non-blank line, if any.
pub fn first_nonblank_index(ls: &Vec<Vec<char>>) -> (r: Option<usize>)
    ensures
        match r {
            Some(i) => i < ls.len() && first_nonblank(pieces_view(ls@)) == Some(ls@[i as int]@),
            None => first_nonblank(pieces_view(ls@)) is None,
        },
{
    let ghost pv = pieces_view(ls@);
    assert(pv.skip(0) == pv);
    let mut i: usize = 0;
    while i < ls.len()
        invariant
            i <= ls.len(),
            pv == pieces_view(ls@),
            first_nonblank(pv) == first_nonblank(pv.skip(i as int)),
        decreases ls.len() - i,
    {
        assert(pv.skip(i as int)[0] == ls@[i as int]@);
        if !blank_chars(&ls[i]) {
            return Some(i);
        }
        assert(pv.skip(i as int).drop_first() == pv.skip(i + 1));
        i += 1;
    }
    None
}

pub fn parse_pacman_query(out: &str) -> (r: Option<String>)
    ensures
        opt_text(r) == pacman_version(out@),
{
    let v = chars_of(out);
    let lines = lines_chars(&v);
    let idx = first_nonblank_index(&lines);
    match idx {
        None => None,
        Some(i) => {
            let words = words_chars(&lines[i]);
            if words.len() < 2 {
                return None;
            }
            let raw = &words[1];
            assert(raw@ == pieces_view(words@)[1]);
            let by_colon = split_chars(raw, CharSet::One(':'));
            proof {
                lemma_split_by_nonempty(raw@, CharSet::One(':'));
            }
            let no_epoch = &by_colon[by_colon.len() - 1];
            assert(no_epoch@ == pieces_view(by_colon@).last());
            let by_dash = split_chars(no_epoch, CharSet::One('-'));
            proof {
                lemma_split_by_nonempty(no_epoch@, CharSet::One('-'));
            }
            let ver = &by_dash[0];
            assert(ver@ == pieces_view(by_dash@)[0]);
            if ver.len() == 0 {
                None
            } else {
                Some(string_of(ver))
            }
        },
    }
}

proof fn lemma_lower_alnum_fixed(c: char)
    requires
        is_ascii_alnum(c),
    ensures
        is_ascii_alnum(ascii_lower(c)),
        ascii_lower(ascii_lower(c)) == ascii_lower(c),
{
}

proof fn lemma_normalized_chars(s: Seq<char>)
    ensures
        forall|i: int|
            0 <= i < normalized(s).len() ==> is_ascii_alnum(#[trigger] normalized(s)[i])
                && ascii_lower(normalized(s)[i]) == normalized(s)[i],
    decreases s.len(),
{
    if s.len() > 0 {
        let d = s.drop_last();
        lemma_normalized_chars(d);
        if is_ascii_alnum(s.last()) {
            lemma_lower_alnum_fixed(s.last());
        }
        assert forall|i: int| 0 <= i < normalized(s).len() implies is_ascii_alnum(
            #[trigger] normalized(s)[i],
        ) && ascii_lower(normalized(s)[i]) == normalized(s)[i] by {
            if i < normalized(d).len() {
                assert(normalized(s)[i] == normalized(d)[i]);
            }
        }
    }
}

proof fn lemma_normalized_fixed(t: Seq<char>)
    requires
        forall|i: int| 0 <= i < t.len() ==> is_ascii_alnum(#[trigger] t[i]) && ascii_lower(t[i]) == t[i],
    ensures
        normalized(t) == t,
    decreases t.len(),
{
    if t.len() > 0 {
        lemma_normalized_fixed(t.drop_last());
        assert(normalized(t) =~= t.drop_last().push(t.last()));
    }
}

/// A normalized name is already normal: normalizing twice changes nothing,
/// so catalogue names and package names meet on one fixed form.
pub proof fn law_normalized_is_normal(s: Seq<char>)
    ensures
        normalized(normalized(s)) == normalized(s),
{
    lemma_normalized_chars(s);
    lemma_normalized_fixed(normalized(s));
}

/// The version read from `pacman -Q` has lost both the epoch and the
/// `pkgrel`: it holds neither `:` nor `-`.
pub proof fn law_pacman_version_is_bare(out: Seq<char>)
    ensures
        pacman_version(out) matches Some(v) ==> !v.contains(':') && !v.contains('-'),
{
    match first_nonblank(lines_of(out)) {
        None => {},
        Some(line) => {
            let w = words_of(line);
            if w.len() >= 2 {
                lemma_split_pieces_free(w[1], CharSet::One(':'));
                lemma_split_by_nonempty(w[1], CharSet::One(':'));
                let parts = split_by(w[1], CharSet::One(':'));
                let no_epoch = parts.last();
                assert(no_epoch == parts[parts.len() - 1]);
                lemma_split_pieces_free(no_epoch, CharSet::One('-'));
                lemma_split_by_nonempty(no_epoch, CharSet::One('-'));
                let v = split_by(no_epoch, CharSet::One('-'))[0];
                if v.contains(':') {
                    let j = choose|j: int| 0 <= j < v.len() && v[j] == ':';
                    assert(no_epoch.contains(v[j]));
                    let k = choose|k: int| 0 <= k < no_epoch.len() && no_epoch[k] == v[j];
                    assert(!in_set(CharSet::One(':'), parts[parts.len() - 1][k]));
                }
                if v.contains('-') {
                    let j = choose|j: int| 0 <= j < v.len() && v[j] == '-';
                    assert(!in_set(CharSet::One('-'), split_by(no_epoch, CharSet::One('-'))[0][j]));
                }
            }
        },
    }
}

/// A removal command names exactly one package after `pkexec`: the name
/// asked for, which can be neither an option nor split into more arguments.
pub proof fn law_removal_names_one_package(m: PkgManager, pkg: Seq<char>)
    ensures
        remove_args(m, pkg) matches Some(a) ==> {
            &&& a.len() == 5
            &&& a[0] == "pkexec"@
            &&& a[4] == pkg
            &&& pkg.len() > 0
            &&& pkg[0] != '-'
            &&& forall|i: int| 0 <= i < pkg.len() ==> !is_ws(#[trigger] pkg[i])
        },
{
}

/// An install command hands the manager exactly the file asked for, which
/// can never be read as an option.
pub proof fn law_install_file_is_not_an_option(m: PkgManager, file: Seq<char>)
    ensures
        install_args(m, file) matches Some(a) ==> a.len() == 5 && a[0] == "pkexec"@ && a[4]
            == file && file.len() > 0 && file[0] != '-',
{
}

/// The command shown for a person to type is the same command with `sudo`
/// in place of `pkexec`.
pub proof fn law_manual_command_swaps_pkexec_for_sudo(m: PkgManager, file: Seq<char>)
    requires
        file != "pkexec"@,
    ensures
        install_args(m, file) matches Some(a) ==> "sudo"@ + manual_tail(a) == "sudo "@ + a[1] + " "@
            + a[2] + " "@ + a[3] + " "@ + a[4],
{
    reveal_strlit("pkexec");
    reveal_strlit("pacman");
    reveal_strlit("apt-get");
    reveal_strlit("-U");
    reveal_strlit("install");
    reveal_strlit("--noconfirm");
    reveal_strlit("-y");
    reveal_strlit("sudo");
    reveal_strlit("sudo ");
    reveal_strlit(" ");
    if let Some(a) = install_args(m, file) {
        let s0: Seq<Seq<char>> = Seq::empty();
        let s1 = s0.push(a[0]);
        let s2 = s1.push(a[1]);
        let s3 = s2.push(a[2]);
        let s4 = s3.push(a[3]);
        let s5 = s4.push(a[4]);
        assert(s5 =~= a);
        assert(s1.drop_last() =~= s0);
        assert(s2.drop_last() =~= s1);
        assert(s3.drop_last() =~= s2);
        assert(s4.drop_last() =~= s3);
        assert(s5.drop_last() =~= s4);
        assert(manual_tail(s0) == Seq::<char>::empty());
        assert(manual_tail(s1) =~= Seq::<char>::empty());
        assert(a[1] != "pkexec"@) by {
            assert(a[1][1] != "pkexec"@[1]);
        }
        assert(manual_tail(s2) =~= seq![' '] + a[1]);
        assert(manual_tail(s3) =~= seq![' '] + a[1] + seq![' '] + a[2]);
        assert(manual_tail(s4) =~= seq![' '] + a[1] + seq![' '] + a[2] + seq![' '] + a[3]);
        assert(manual_tail(s5) =~= seq![' '] + a[1] + seq![' '] + a[2] + seq![' '] + a[3] + seq![' ']
            + a[4]);
        assert("sudo"@ + manual_tail(a) =~= "sudo "@ + a[1] + " "@ + a[2] + " "@ + a[3] + " "@ + a[4]);
    }
}

} // verus!
