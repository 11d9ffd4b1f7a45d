//! Installing, updating and removing apps: the decisions between the
//! downloads and the commands, which the caller carries out.
use crate::detect::{
    find_package, is_installed_as, is_listed_package, trimmed_lines, InstallOrigin, InstalledInfo,
};
use crate::paths::{parent_or_empty, parent_text};
use crate::glob::{lowercased, to_lower};
use crate::paths::{file_name_of, joined_path, parent_of, path_file_name, path_join, path_parent};
use crate::pkg::{
    globs_in_order, install_args, install_cmd, manager_glob, manager_name, remove_args, remove_cmd,
    PkgManager,
};
use crate::registry::{first_named_key, is_first_named, names_app, none_named, UninstallKey};
use crate::release::{asset_names, is_first_glob, is_first_hit, no_hit, select_asset, AssetInfo, ReleaseInfo};
use crate::repo::CustomApp;
use crate::text::{
    chars_of, decimal_of, decimal_text, ends_with, has_suffix, join_texts, joined_with, lemma_first_piece_len,
    lemma_split_by_nonempty, pieces_view, same_text, slice_chars, split_by, split_chars,
    string_of, trim_by, trim_chars, words_chars, words_of, CharSet,
};
use vstd::prelude::*;
use vstd::string::*;

verus! {

/// What the front end asks to install.
#[derive(Clone, Debug)]
pub struct InstallSpec {
    pub id: String,
    pub name: String,
    pub repo: String,
    /// The asset glob for this platform, already chosen by the front end.
    pub asset_pattern: String,
    /// Arguments of a silent install on Windows (such as "/S").
    pub silent_args: Vec<String>,
    pub exe: String,
    /// Linux: the path of the AppImage already installed (an update writes
    /// over it in place).
    pub current_path: Option<String>,
    /// The PNG of the icon for the Linux menu entry.
    pub icon_url: Option<String>,
}

/// What the front end asks for an update of the Hub itself.
#[derive(Clone, Debug)]
pub struct SelfUpdateSpec {
    pub repo: String,
    pub asset_pattern: String,
}

/// What the front end asks to uninstall.
#[derive(Clone, Debug)]
pub struct UninstallSpec {
    pub id: String,
    pub name: String,
    pub exe: String,
    pub source: String,
}

/// A menu entry to (re)create on Linux.
#[derive(Clone, Debug)]
pub struct ShortcutEntry {
    pub id: String,
    pub name: String,
    pub exe: String,
}

/// The file name of a downloaded payload, lowercased (empty when the path
/// has none).
pub open spec fn payload_name(path: Seq<char>) -> Seq<char> {
    match file_name_of(path) {
        Some(n) => lowercased(n),
        None => Seq::empty(),
    }
}

pub fn payload_file_name(path: &str) -> (r: String)
    ensures
        r@ == payload_name(path@),
{
    match path_file_name(path) {
        Some(n) => to_lower(n.as_str()),
        None => String::new(),
    }
}

/// A payload is handed to the package manager when its name, lowercased,
/// ends in `.pkg.tar.zst` or `.deb`.
pub fn payload_is_package(path: &str) -> (b: bool)
    ensures
        b == (ends_with(payload_name(path@), ".pkg.tar.zst"@) || ends_with(
            payload_name(path@),
            ".deb"@,
        )),
{
    let n = payload_file_name(path);
    let nv = chars_of(n.as_str());
    let zst = chars_of(".pkg.tar.zst");
    let deb = chars_of(".deb");
    has_suffix(&nv, &zst) || has_suffix(&nv, &deb)
}

/// Where an AppImage is installed: over the current one when there is a
/// current path whose folder exists, else `<apps_dir>/<name>.AppImage`.
pub open spec fn keeps_current<F: Fn(&String) -> bool>(dir_exists: F, current: Seq<char>) -> bool {
    current.len() > 0 && match parent_of(current) {
        Some(d) => exists|s: &String| s@ == d && call_ensures(dir_exists, (s,), true),
        None => false,
    }
}

pub fn appimage_destination<F: Fn(&String) -> bool>(
    current_path: &Option<String>,
    apps_dir: &str,
    name: &str,
    dir_exists: F,
) -> (r: String)
    requires
        forall|s: &String| call_requires(dir_exists, (s,)),
    ensures
        ({
            let fresh = joined_path(apps_dir@, name@ + ".AppImage"@);
            match current_path {
                Some(p) => (keeps_current(dir_exists, p@) && r@ == p@) || (r@ == fresh && (p@.len()
                    == 0 || match parent_of(p@) {
                    Some(d) => exists|s: &String| s@ == d && call_ensures(dir_exists, (s,), false),
                    None => true,
                })),
                None => r@ == fresh,
            }
        }),
{
    match current_path {
        Some(p) => {
            if p.as_str().unicode_len() > 0 {
                match path_parent(p.as_str()) {
                    Some(d) => {
                        let here = dir_exists(&d);
                        if here {
                            return p.clone();
                        }
                    },
                    None => {},
                }
            }
        },
        None => {},
    }
    let mut file = String::from_str(name);
    file.append(".AppImage");
    path_join(apps_dir, file.as_str())
}

/// A detected uninstall source that a package manager owns.
pub open spec fn is_package_source(source: Seq<char>) -> bool {
    source == "deb"@ || source == "pacman"@
}

pub fn uses_package_manager(source: &str) -> (b: bool)
    ensures
        b == is_package_source(source@),
{
    same_text(source, "deb") || same_text(source, "pacman")
}

/// The reason an update of the Hub in place is refused outside an AppImage.
pub open spec fn self_update_refusal_text(m: PkgManager) -> Seq<char> {
    match m {
        PkgManager::NoManager => "O Hub não está rodando como AppImage, então não há o que atualizar no lugar."@,
        PkgManager::Pacman => "O Hub foi instalado como pacote de sistema. Baixe a versão nova da página de releases e instale com `sudo "@
            + "pacman -U"@
            + " <arquivo>` — atualizar por baixo do gerenciador deixaria ele com a informação errada."@,
        PkgManager::Apt => "O Hub foi instalado como pacote de sistema. Baixe a versão nova da página de releases e instale com `sudo "@
            + "apt install ./"@
            + " <arquivo>` — atualizar por baixo do gerenciador deixaria ele com a informação errada."@,
    }
}

pub fn self_update_refusal(m: PkgManager) -> (msg: String)
    ensures
        msg@ == self_update_refusal_text(m),
{
    match m {
        PkgManager::NoManager => String::from_str(
            "O Hub não está rodando como AppImage, então não há o que atualizar no lugar.",
        ),
        _ => {
            let mut s = String::from_str(
                "O Hub foi instalado como pacote de sistema. Baixe a versão nova da página de releases e instale com `sudo ",
            );
            match m {
                PkgManager::Pacman => s.append("pacman -U"),
                _ => s.append("apt install ./"),
            }
            s.append(" <arquivo>` — atualizar por baixo do gerenciador deixaria ele com a informação errada.");
            s
        },
    }
}

/// An exit code as `{:?}` writes it: `None`, or `Some(<decimal>)`.
pub open spec fn debug_code(code: Option<i32>) -> Seq<char> {
    match code {
        None => "None"@,
        Some(n) => "Some("@ + decimal_text(n as int) + ")"@,
    }
}

fn code_text(code: Option<i32>) -> (r: String)
    ensures
        r@ == debug_code(code),
{
    match code {
        None => String::from_str("None"),
        Some(n) => {
            let mut s = String::from_str("Some(");
            let d = decimal_of(n);
            s.append(d.as_str());
            s.append(")");
            s
        },
    }
}

/// The error a failed package command reports: exit codes 126 and 127
/// mean the user cancelled or was denied the authorization; any other tells
/// the code and the command to run by hand.
pub open spec fn pkg_failure_text(code: Option<i32>, manual: Seq<char>) -> Seq<char> {
    if code == Some(126i32) || code == Some(127i32) {
        "Autorização cancelada ou negada."@
    } else {
        "O gerenciador de pacotes saiu com código "@ + debug_code(code)
            + ". Pra ver a mensagem dele, rode:\n\n"@ + manual
    }
}

pub fn pkg_failure_message(code: Option<i32>, manual: &str) -> (msg: String)
    ensures
        msg@ == pkg_failure_text(code, manual@),
{
    match code {
        Some(126) | Some(127) => String::from_str("Autorização cancelada ou negada."),
        _ => {
            let mut s = String::from_str("O gerenciador de pacotes saiu com código ");
            let c = code_text(code);
            s.append(c.as_str());
            s.append(". Pra ver a mensagem dele, rode:\n\n");
            s.append(manual);
            s
        },
    }
}

/// The error when the machine has no `pkexec` to ask for the password.
pub open spec fn missing_pkexec_text(manual: Seq<char>) -> Seq<char> {
    "Esta máquina não tem `pkexec` (polkit), então o Hub não consegue pedir a senha de administrador. Rode você mesmo num terminal:\n\n"@
        + manual
}

pub fn missing_pkexec_message(manual: &str) -> (msg: String)
    ensures
        msg@ == missing_pkexec_text(manual@),
{
    let mut s = String::from_str(
        "Esta máquina não tem `pkexec` (polkit), então o Hub não consegue pedir a senha de administrador. Rode você mesmo num terminal:\n\n",
    );
    s.append(manual);
    s
}

/// The command line an uninstall runs: `QuietUninstallString` when the
/// key has one, else `UninstallString` (which then gets `/S`).
pub open spec fn chosen_cmdline(quiet: Seq<char>, normal: Seq<char>) -> Seq<char> {
    if quiet.len() > 0 {
        quiet
    } else {
        normal
    }
}

/// A quoted command line has its closing quote (the program ends there).
pub open spec fn cmdline_well_quoted(cmdline: Seq<char>) -> bool {
    cmdline.len() > 0 && cmdline[0] == '"' ==> split_by(cmdline.drop_first(), CharSet::One('"')).len()
        >= 2
}

/// The program of a command line: inside the leading quotes, else up to the
/// first space.
pub open spec fn cmdline_program(cmdline: Seq<char>) -> Seq<char> {
    if cmdline.len() > 0 && cmdline[0] == '"' {
        split_by(cmdline.drop_first(), CharSet::One('"'))[0]
    } else {
        split_by(cmdline, CharSet::One(' '))[0]
    }
}

/// What follows the program, trimmed.
pub open spec fn cmdline_rest(cmdline: Seq<char>) -> Seq<char> {
    let prog = cmdline_program(cmdline);
    if cmdline.len() > 0 && cmdline[0] == '"' {
        trim_by(cmdline.drop_first().skip(prog.len() + 1 as int), CharSet::Whitespace)
    } else if split_by(cmdline, CharSet::One(' ')).len() >= 2 {
        trim_by(cmdline.skip(prog.len() + 1 as int), CharSet::Whitespace)
    } else {
        Seq::empty()
    }
}

/// The arguments of the uninstall: the words after the program, and `/S`
/// when the non-quiet command line was taken.
pub open spec fn uninstall_args(quiet: Seq<char>, normal: Seq<char>) -> Seq<Seq<char>> {
    let words = words_of(cmdline_rest(chosen_cmdline(quiet, normal)));
    if quiet.len() > 0 {
        words
    } else {
        words.push("/S"@)
    }
}

/// The program and arguments of the uninstaller; none when the key has no
/// command line at all.
pub fn uninstall_invocation(quiet: &str, normal: &str) -> (r: Option<(String, Vec<String>)>)
    requires
        cmdline_well_quoted(chosen_cmdline(quiet@, normal@)),
    ensures
        match r {
            Some((prog, args)) => chosen_cmdline(quiet@, normal@).len() > 0 && prog@
                == cmdline_program(chosen_cmdline(quiet@, normal@)) && args.deep_view()
                == uninstall_args(quiet@, normal@),
            None => chosen_cmdline(quiet@, normal@).len() == 0,
        },
{
    let q = chars_of(quiet);
    let add_silent = q.len() == 0;
    let line = if add_silent {
        chars_of(normal)
    } else {
        q
    };
    let ghost cl = chosen_cmdline(quiet@, normal@);
    assert(line@ == cl);
    if line.len() == 0 {
        return None;
    }
    let (prog, rest) = if line[0] == '"' {
        let stripped = slice_chars(&line, 1, line.len());
        assert(stripped@ == cl.drop_first());
        let parts = split_chars(&stripped, CharSet::One('"'));
        proof {
            lemma_first_piece_len(stripped@, '"');
            lemma_split_by_nonempty(stripped@, CharSet::One('"'));
        }
        assert(parts@[0]@ == pieces_view(parts@)[0]);
        let end = parts[0].len();
        let after = slice_chars(&stripped, end + 1, stripped.len());
        assert(after@ == cl.drop_first().skip(end + 1));
        (string_of(&parts[0]), trim_chars(&after, CharSet::Whitespace))
    } else {
        let parts = split_chars(&line, CharSet::One(' '));
        proof {
            lemma_first_piece_len(line@, ' ');
            lemma_split_by_nonempty(line@, CharSet::One(' '));
        }
        assert(parts@[0]@ == pieces_view(parts@)[0]);
        if parts.len() >= 2 {
            let end = parts[0].len();
            let after = slice_chars(&line, end + 1, line.len());
            assert(after@ == cl.skip(end + 1));
            (string_of(&parts[0]), trim_chars(&after, CharSet::Whitespace))
        } else {
            (string_of(&line), Vec::new())
        }
    };
    assert(rest@ == cmdline_rest(cl));
    let words = words_chars(&rest);
    let ghost wv = pieces_view(words@);
    let mut args: Vec<String> = Vec::new();
    let mut i: usize = 0;
    while i < words.len()
        invariant
            i <= words.len(),
            wv == pieces_view(words@),
            args.deep_view() == wv.take(i as int),
        decreases words.len() - i,
    {
        let w = string_of(&words[i]);
        assert(wv[i as int] == words@[i as int]@);
        let ghost prev = args.deep_view();
        args.push(w);
        assert(args.deep_view() =~= prev.push(wv[i as int]));
        assert(wv.take(i + 1) =~= wv.take(i as int).push(wv[i as int]));
        i += 1;
    }
    assert(wv.take(words.len() as int) == wv);
    if add_silent {
        let ghost prev = args.deep_view();
        args.push(String::from_str("/S"));
        assert(args.deep_view() =~= prev.push("/S"@));
    }
    Some((prog, args))
}

/// What an install of a user's repository reports on Windows, and the entry
/// it leaves: the registry's name becomes the entry's name, the executable's
/// file name its `exe` (kept when the path has none), and the version is the
/// registry's, or the release's when the registry has none.
pub fn registered_custom_install(
    c: CustomApp,
    name: String,
    reg_version: String,
    exe: String,
    location: String,
    release_version: String,
) -> (r: (InstalledInfo, CustomApp))
    ensures
        is_installed_as(
            r.0,
            c.id@,
            if reg_version@.len() == 0 {
                release_version@
            } else {
                reg_version@
            },
            location@,
            exe@,
            "registry"@,
        ),
        r.1.id == c.id,
        r.1.repo == c.repo,
        r.1.win_asset == c.win_asset,
        r.1.linux_asset == c.linux_asset,
        r.1.name == name,
        match file_name_of(exe@) {
            Some(f) => r.1.exe@ == f,
            None => r.1.exe == c.exe,
        },
{
    let mut c = c;
    let exe_file = path_file_name(exe.as_str());
    c.name = name;
    match exe_file {
        Some(f) => {
            c.exe = f;
        },
        None => {},
    }
    let version = if reg_version.as_str().unicode_len() == 0 {
        release_version
    } else {
        reg_version
    };
    let info = InstalledInfo {
        id: c.id.clone(),
        installed: true,
        version,
        location,
        exe,
        source: String::from_str("registry"),
    };
    (info, c)
}

/// A glob as the error messages quote it.
pub open spec fn quoted(g: Seq<char>) -> Seq<char> {
    "'"@ + g + "'"@
}

/// The globs that were tried, quoted and joined with " nem ".
pub open spec fn quoted_globs(globs: Seq<Seq<char>>) -> Seq<char> {
    joined_with(globs.map_values(|g: Seq<char>| quoted(g)), " nem "@)
}

/// The error when no asset of the release matches any of the globs; the
/// repository is named only where the caller names it.
pub open spec fn no_asset_text(tag: Seq<char>, repo: Option<Seq<char>>, globs: Seq<Seq<char>>) -> Seq<
    char,
> {
    "Nenhum asset da release "@ + tag + match repo {
        Some(r) => " de "@ + r,
        None => Seq::empty(),
    } + " casa com "@ + quoted_globs(globs)
}

/// `a` holds the same name, address and size as `b`.
pub open spec fn same_asset(a: AssetInfo, b: AssetInfo) -> bool {
    a.name@ == b.name@ && a.url@ == b.url@ && a.size == b.size
}

fn quote_all(globs: &[String]) -> (r: Vec<String>)
    ensures
        r.deep_view() == globs.deep_view().map_values(|g: Seq<char>| quoted(g)),
{
    let ghost want = globs.deep_view().map_values(|g: Seq<char>| quoted(g));
    let mut r: Vec<String> = Vec::new();
    let mut i: usize = 0;
    while i < globs.len()
        invariant
            i <= globs.len(),
            want == globs.deep_view().map_values(|g: Seq<char>| quoted(g)),
            r.deep_view() == want.take(i as int),
        decreases globs.len() - i,
    {
        let mut q = String::from_str("'");
        q.append(globs[i].as_str());
        q.append("'");
        assert(q@ == want[i as int]);
        let ghost prev = r.deep_view();
        r.push(q);
        assert(r.deep_view() =~= prev.push(want[i as int]));
        assert(want.take(i + 1) =~= want.take(i as int).push(want[i as int]));
        i += 1;
    }
    assert(want.take(globs.len() as int) == want);
    r
}

/// The asset an install downloads: the first glob that matches any asset
/// of the release picks the first asset it matches (`select_asset`); when no
/// glob matches, the error names the release, the repository where given,
/// and every glob tried.
pub fn choose_asset(release: &ReleaseInfo, globs: &[String], repo: Option<&str>) -> (r: Result<
    AssetInfo,
    String,
>)
    ensures
        ({
            let names = asset_names(release.assets@);
            let gv = globs.deep_view();
            match r {
                Ok(a) => exists|k: int, i: int|
                    #[trigger] is_first_glob(gv, names, k) && #[trigger] is_first_hit(gv[k], names, i)
                        && same_asset(a, release.assets@[i]),
                Err(e) => (forall|k: int| 0 <= k < gv.len() ==> no_hit(#[trigger] gv[k], names))
                    && e@ == no_asset_text(
                    release.tag@,
                    match repo {
                        Some(x) => Some(x@),
                        None => None,
                    },
                    gv,
                ),
            }
        }),
{
    match select_asset(release.assets.as_slice(), globs) {
        Some((k, i)) => {
            let a = &release.assets[i];
            let picked = AssetInfo { name: a.name.clone(), url: a.url.clone(), size: a.size };
            assert(same_asset(picked, release.assets@[i as int]));
            Ok(picked)
        },
        None => {
            let mut e = String::from_str("Nenhum asset da release ");
            e.append(release.tag.as_str());
            match repo {
                Some(x) => {
                    e.append(" de ");
                    e.append(x);
                },
                None => {},
            }
            e.append(" casa com ");
            let q = quote_all(globs);
            let list = join_texts(&q, " nem ");
            e.append(list.as_str());
            Err(e)
        },
    }
}

/// The position of the user's repository `id` in the list (the first with
/// that id), or the error when it is not there.
pub fn custom_index(list: &[CustomApp], id: &str) -> (r: Result<usize, String>)
    ensures
        match r {
            Ok(i) => i < list.len() && list@[i as int].id@ == id@ && forall|j: int|
                0 <= j < i ==> (#[trigger] list@[j]).id@ != id@,
            Err(e) => e@ == "Repositório não está na lista"@ && forall|j: int|
                0 <= j < list.len() ==> (#[trigger] list@[j]).id@ != id@,
        },
{
    let mut i: usize = 0;
    while i < list.len()
        invariant
            i <= list.len(),
            forall|j: int| 0 <= j < i ==> (#[trigger] list@[j]).id@ != id@,
        decreases list.len() - i,
    {
        if same_text(list[i].id.as_str(), id) {
            return Ok(i);
        }
        i += 1;
    }
    Err(String::from_str("Repositório não está na lista"))
}

/// The asset pattern of a user's repository for this platform; refused when
/// its release had none for it.
pub fn custom_asset_pattern(c: &CustomApp, windows: bool) -> (r: Result<String, String>)
    ensures
        ({
            let p = if windows {
                c.win_asset@
            } else {
                c.linux_asset@
            };
            &&& p.len() > 0 ==> (r matches Ok(x) && x@ == p)
            &&& p.len() == 0 ==> (r matches Err(e) && e@
                == "A release desse repositório não tem asset pra esta plataforma"@)
        }),
{
    let p = if windows {
        c.win_asset.clone()
    } else {
        c.linux_asset.clone()
    };
    if p.as_str().unicode_len() == 0 {
        Err(String::from_str("A release desse repositório não tem asset pra esta plataforma"))
    } else {
        Ok(p)
    }
}

/// The install request for a user's repository: its own id, name, repository
/// and executable, a silent `/S` install, and nothing else.
pub fn custom_install_spec(c: &CustomApp) -> (s: InstallSpec)
    ensures
        s.id == c.id,
        s.name == c.name,
        s.repo == c.repo,
        s.exe == c.exe,
        s.asset_pattern@.len() == 0,
        s.silent_args.deep_view() == seq!["/S"@],
        s.current_path is None,
        s.icon_url is None,
{
    let mut silent_args: Vec<String> = Vec::new();
    silent_args.push(String::from_str("/S"));
    assert(silent_args.deep_view() =~= seq!["/S"@]);
    InstallSpec {
        id: c.id.clone(),
        name: c.name.clone(),
        repo: c.repo.clone(),
        asset_pattern: String::new(),
        silent_args,
        exe: c.exe.clone(),
        current_path: None,
        icon_url: None,
    }
}

/// What a Windows install of a user's repository records when no new key
/// appeared in the registry (the installer updated an existing one): the
/// detection by name when it found the app, else the release's version and
/// nothing more. The result is (name, version, exe, location).
pub fn registry_entry_or_detected(
    found: Option<(String, String, String, String)>,
    name: String,
    detected: InstalledInfo,
    release_version: String,
) -> (r: (String, String, String, String))
    ensures
        match found {
            Some(f) => r == f,
            None => if detected.installed {
                r.0 == name && r.1 == detected.version && r.2 == detected.exe && r.3
                    == detected.location
            } else {
                r.0 == name && r.1 == release_version && r.2@.len() == 0 && r.3@.len() == 0
            },
        },
{
    match found {
        Some(f) => f,
        None => if detected.installed {
            (name, detected.version, detected.exe, detected.location)
        } else {
            (name, release_version, String::new(), String::new())
        },
    }
}

/// Where a downloaded payload went on Linux.
#[derive(Clone, Debug)]
pub enum PayloadInstalled {
    /// An AppImage, copied to this path: the Hub's own record must know it.
    AppImage(String),
    /// A system package, handed to this package manager, which answers for
    /// it from then on.
    Managed(PkgManager),
}

/// The result of a Linux install of a user's repository: the AppImage is
/// the Hub's, found at its path; a system package is refused, since such
/// repositories install only AppImages.
pub fn custom_linux_install(id: String, outcome: PayloadInstalled, version: String) -> (r: Result<
    InstalledInfo,
    String,
>)
    ensures
        match outcome {
            PayloadInstalled::AppImage(dest) => r matches Ok(info) && is_installed_as(
                info,
                id@,
                version@,
                parent_or_empty(dest@),
                dest@,
                "hub"@,
            ),
            PayloadInstalled::Managed(_) => r matches Err(e) && e@
                == "Repositórios adicionados por link ainda só instalam AppImage no Linux. Instale este pacote pelo gerenciador da sua distro."@,
        },
{
    match outcome {
        PayloadInstalled::AppImage(dest) => {
            let location = parent_text(dest.as_str());
            Ok(
                InstalledInfo {
                    id,
                    installed: true,
                    version,
                    location,
                    exe: dest,
                    source: String::from_str("hub"),
                },
            )
        },
        PayloadInstalled::Managed(_) => Err(
            String::from_str(
                "Repositórios adicionados por link ainda só instalam AppImage no Linux. Instale este pacote pelo gerenciador da sua distro.",
            ),
        ),
    }
}

/// Where a Linux install put the app, for the report after it: the
/// AppImage's path, or the manager that installed the package.
pub fn payload_origin(outcome: PayloadInstalled) -> (o: InstallOrigin)
    requires
        outcome matches PayloadInstalled::Managed(m) ==> !(m is NoManager),
    ensures
        match outcome {
            PayloadInstalled::AppImage(_) => o == InstallOrigin::AppImage,
            PayloadInstalled::Managed(m) => if m is Pacman {
                o == InstallOrigin::Pacman
            } else {
                o == InstallOrigin::Deb
            },
        },
{
    match outcome {
        PayloadInstalled::AppImage(_) => InstallOrigin::AppImage,
        PayloadInstalled::Managed(PkgManager::Pacman) => InstallOrigin::Pacman,
        PayloadInstalled::Managed(_) => InstallOrigin::Deb,
    }
}

/// The package manager's command for a downloaded system package; refused
/// when the machine has neither pacman nor apt (or the path could pass for
/// an option).
pub fn package_install_command(m: PkgManager, payload: &str) -> (r: Result<Vec<String>, String>)
    ensures
        match install_args(m, payload@) {
            Some(a) => r matches Ok(v) && v.deep_view() == a,
            None => r matches Err(e) && e@ == "Baixei um pacote de sistema ("@ + payload_name(
                payload@,
            ) + ") mas esta máquina não tem pacman nem apt."@,
        },
{
    match install_cmd(m, payload) {
        Some(v) => Ok(v),
        None => {
            let mut e = String::from_str("Baixei um pacote de sistema (");
            let n = payload_file_name(payload);
            e.append(n.as_str());
            e.append(") mas esta máquina não tem pacman nem apt.");
            Err(e)
        },
    }
}

/// The text `format!("{:?}", s)` writes for a string: quoted, with escapes.
pub uninterp spec fn debug_text(s: Seq<char>) -> Seq<char>;

/// `format!("{:?}", s)`: the contract names its result `debug_text(s@)`.
#[verifier::external_body]
fn quoted_debug(s: &str) -> (r: String)
    ensures
        r@ == debug_text(s@),
{
    format!("{:?}", s)
}

/// The refusal to remove a system package on a machine with neither pacman
/// nor apt.
pub open spec fn no_manager_text(name: Seq<char>) -> Seq<char> {
    name + " está instalado como pacote de sistema, mas não achei pacman nem apt nesta máquina pra removê-lo."@
}

/// The refusal to remove a package the manager does not list under the
/// app's name.
pub open spec fn unconfirmed_package_text(name: Seq<char>, m: PkgManager) -> Seq<char> {
    "Não achei um pacote instalado com o nome de "@ + name + " no "@ + manager_name(m)
        + ". Por segurança o Hub não remove um pacote que ele não conseguiu confirmar."@
}

/// The refusal of a listed package name that no removal command accepts.
pub open spec fn refused_package_text(pkg: Seq<char>) -> Seq<char> {
    "Nome de pacote recusado por segurança: "@ + debug_text(pkg)
}

/// `i` is the first line of the manager's listing that names the app.
pub open spec fn is_first_listed(ls: Seq<Seq<char>>, name: Seq<char>, i: int) -> bool {
    &&& 0 <= i < ls.len()
    &&& is_listed_package(ls, name, true, i)
    &&& forall|j: int| 0 <= j < i ==> !#[trigger] is_listed_package(ls, name, true, j)
}

/// The command that removes an app installed as a system package. The
/// package is the one the manager itself lists (`listing`, its list of
/// installed package names; none when it could not be asked) under the
/// app's normalized name, never one made up from that name; without a
/// manager, without such a line, or with a name no removal command accepts,
/// nothing is removed and the error says why.
pub fn package_removal(m: PkgManager, app_name: &str, listing: Option<String>) -> (r: Result<
    Vec<String>,
    String,
>)
    ensures
        m is NoManager ==> (r matches Err(e) && e@ == no_manager_text(app_name@)),
        !(m is NoManager) ==> match listing {
            None => r matches Err(e) && e@ == unconfirmed_package_text(app_name@, m),
            Some(l) => {
                let ls = trimmed_lines(l@);
                &&& (forall|j: int| 0 <= j < ls.len() ==> !#[trigger] is_listed_package(ls, app_name@, true, j))
                    ==> (r matches Err(e) && e@ == unconfirmed_package_text(app_name@, m))
                &&& forall|i: int|
                    #[trigger] is_first_listed(ls, app_name@, i) ==> match remove_args(m, ls[i]) {
                        Some(a) => r matches Ok(v) && v.deep_view() == a,
                        None => r matches Err(e) && e@ == refused_package_text(ls[i]),
                    }
            },
        },
{
    match m {
        PkgManager::NoManager => {
            let mut e = String::from_str(app_name);
            e.append(" está instalado como pacote de sistema, mas não achei pacman nem apt nesta máquina pra removê-lo.");
            return Err(e);
        },
        _ => {},
    }
    let found = match listing {
        Some(l) => {
            let f = find_package(l.as_str(), app_name, true);
            proof {
                let ls = trimmed_lines(l@);
                if f is Some {
                    let i0 = choose|i: int|
                        0 <= i < ls.len() && is_listed_package(ls, app_name@, true, i) && ls[i] == f->0@
                            && forall|j: int|
                            0 <= j < i ==> !#[trigger] is_listed_package(ls, app_name@, true, j);
                    assert(is_first_listed(ls, app_name@, i0));
                    assert forall|i2: int| #[trigger] is_first_listed(ls, app_name@, i2) implies i2 == i0 by {
                        if i2 < i0 {
                            assert(!is_listed_package(ls, app_name@, true, i2));
                        } else if i0 < i2 {
                            assert(!is_listed_package(ls, app_name@, true, i0));
                        }
                    }
                }
            }
            f
        },
        None => None,
    };
    match found {
        None => {
            let mut e = String::from_str("Não achei um pacote instalado com o nome de ");
            e.append(app_name);
            e.append(" no ");
            e.append(m.as_str());
            e.append(". Por segurança o Hub não remove um pacote que ele não conseguiu confirmar.");
            Err(e)
        },
        Some(p) => match remove_cmd(m, p.as_str()) {
            Some(v) => Ok(v),
            None => {
                let mut e = String::from_str("Nome de pacote recusado por segurança: ");
                let q = quoted_debug(p.as_str());
                e.append(q.as_str());
                Err(e)
            },
        },
    }
}

/// The command line of a key: `QuietUninstallString`, else `UninstallString`.
pub open spec fn key_cmdline(k: UninstallKey) -> Seq<char> {
    chosen_cmdline(k.quiet_uninstall@, k.uninstall@)
}

/// Whether the command line an uninstall would take is well quoted (a
/// quoted program has its closing quote): the uninstall needs it.
pub fn uninstall_cmdline_ok(quiet: &str, normal: &str) -> (b: bool)
    ensures
        b == cmdline_well_quoted(chosen_cmdline(quiet@, normal@)),
{
    let q = chars_of(quiet);
    let line = if q.len() > 0 {
        q
    } else {
        chars_of(normal)
    };
    if line.len() == 0 || line[0] != '"' {
        return true;
    }
    let stripped = slice_chars(&line, 1, line.len());
    assert(stripped@ == line@.drop_first());
    let parts = split_chars(&stripped, CharSet::One('"'));
    parts.len() >= 2
}

/// The uninstaller of an app on Windows, from the registry's `Uninstall`
/// keys in the order the hives are read: the first key that names the app
/// gives the program and arguments (`uninstall_invocation`); an error when
/// no key names it, or when that key has no command line.
pub fn registry_uninstall(name: &str, keys: &[UninstallKey]) -> (r: Result<(String, Vec<String>), String>)
    requires
        forall|i: int|
            #[trigger] is_first_named(keys@, name@, i) ==> cmdline_well_quoted(key_cmdline(keys@[i])),
    ensures
        none_named(keys@, name@) ==> (r matches Err(e) && e@ == name@ + ": não encontrado no registro"@),
        forall|i: int|
            #[trigger] is_first_named(keys@, name@, i) ==> if key_cmdline(keys@[i]).len() == 0 {
                r matches Err(e) && e@ == name@ + ": sem UninstallString no registro"@
            } else {
                r matches Ok((prog, args)) && prog@ == cmdline_program(key_cmdline(keys@[i]))
                    && args.deep_view() == uninstall_args(keys@[i].quiet_uninstall@, keys@[i].uninstall@)
            },
{
    match first_named_key(keys, name) {
        None => {
            let mut e = String::from_str(name);
            e.append(": não encontrado no registro");
            Err(e)
        },
        Some(i) => {
            proof {
                assert forall|i2: int| #[trigger] is_first_named(keys@, name@, i2) implies i2 == i by {
                    if i2 < i {
                        assert(!names_app(keys@[i2].display_name@, name@));
                    } else if i < i2 {
                        assert(!names_app(keys@[i as int].display_name@, name@));
                    }
                }
            }
            let k = &keys[i];
            match uninstall_invocation(k.quiet_uninstall.as_str(), k.uninstall.as_str()) {
                Some(inv) => Ok(inv),
                None => {
                    let mut e = String::from_str(name);
                    e.append(": sem UninstallString no registro");
                    Err(e)
                },
            }
        },
    }
}

/// The error of an installer that exited with a failure.
pub fn installer_failure_message(name: &str, code: Option<i32>) -> (msg: String)
    ensures
        msg@ == "Instalador de "@ + name@ + " saiu com código "@ + debug_code(code),
{
    let mut s = String::from_str("Instalador de ");
    s.append(name);
    s.append(" saiu com código ");
    let c = code_text(code);
    s.append(c.as_str());
    s
}

/// The error of an uninstaller that exited with a failure.
pub fn uninstaller_failure_message(code: Option<i32>) -> (msg: String)
    ensures
        msg@ == "Desinstalador saiu com código "@ + debug_code(code),
{
    let mut s = String::from_str("Desinstalador saiu com código ");
    let c = code_text(code);
    s.append(c.as_str());
    s
}

/// Where an update of the Hub in place writes on Linux: the running
/// AppImage (`$APPIMAGE`), through a `.new` file beside it that then
/// replaces it; without an AppImage the update is refused
/// (`self_update_refusal`). The result is (target, staging file).
pub fn self_update_target(appimage: Option<String>, m: PkgManager) -> (r: Result<(String, String), String>)
    ensures
        match appimage {
            Some(t) => r matches Ok((target, tmp)) && target == t && tmp@ == t@ + ".new"@,
            None => r matches Err(e) && e@ == self_update_refusal_text(m),
        },
{
    match appimage {
        Some(t) => {
            let mut tmp = t.clone();
            tmp.append(".new");
            Ok((t, tmp))
        },
        None => Err(self_update_refusal(m)),
    }
}

/// The script that updates the Hub on Windows once it has closed: it waits
/// a moment, runs the installer silently with its output in `log`, deletes
/// the installer, opens the Hub again and deletes itself.
pub open spec fn update_script_text(inst: Seq<char>, log: Seq<char>, hub: Seq<char>) -> Seq<char> {
    "@echo off\r\nrem gerado pelo TaylorHub: instala a atualizacao e reabre o app\r\nping -n 4 127.0.0.1 >nul\r\n\""@
        + inst + "\" /S >\""@ + log + "\" 2>&1\r\ndel \""@ + inst + "\"\r\nstart \"\" \""@ + hub
        + "\"\r\ndel \"%~f0\"\r\n"@
}

pub fn update_script(inst: &str, log: &str, hub: &str) -> (t: String)
    ensures
        t@ == update_script_text(inst@, log@, hub@),
{
    let mut t = String::from_str(
        "@echo off\r\nrem gerado pelo TaylorHub: instala a atualizacao e reabre o app\r\nping -n 4 127.0.0.1 >nul\r\n\"",
    );
    t.append(inst);
    t.append("\" /S >\"");
    t.append(log);
    t.append("\" 2>&1\r\ndel \"");
    t.append(inst);
    t.append("\"\r\nstart \"\" \"");
    t.append(hub);
    t.append("\"\r\ndel \"%~f0\"\r\n");
    t
}

/// What became of one menu entry the Hub was asked to recreate.
#[derive(Clone, Debug)]
pub enum ShortcutOutcome {
    /// The app's executable is not on disk: no entry was written.
    MissingExe,
    /// The entry was written.
    Written,
    /// Writing it failed with this error.
    Failed(String),
}

/// A menu entry is written only for an executable that is named and exists.
pub fn shortcut_launchable<F: Fn(&String) -> bool>(exe: &String, file_exists: F) -> (b: bool)
    requires
        forall|s: &String| call_requires(file_exists, (s,)),
    ensures
        b ==> exe@.len() > 0 && call_ensures(file_exists, (exe,), true),
        !b ==> exe@.len() == 0 || call_ensures(file_exists, (exe,), false),
{
    if exe.as_str().unicode_len() == 0 {
        return false;
    }
    file_exists(exe)
}

/// The warning an entry's outcome gives, if any.
pub open spec fn shortcut_warning(name: Seq<char>, o: ShortcutOutcome) -> Option<Seq<char>> {
    match o {
        ShortcutOutcome::MissingExe => Some(name + ": executável não encontrado"@),
        ShortcutOutcome::Written => None,
        ShortcutOutcome::Failed(e) => Some(name + ": "@ + e@),
    }
}

/// The warnings of a recreation of menu entries, in the entries' order.
pub open spec fn shortcut_warnings_of(entries: Seq<ShortcutEntry>, outcomes: Seq<ShortcutOutcome>) -> Seq<
    Seq<char>,
>
    decreases entries.len(),
{
    if entries.len() == 0 || outcomes.len() == 0 {
        Seq::empty()
    } else {
        let rest = shortcut_warnings_of(entries.drop_last(), outcomes.drop_last());
        match shortcut_warning(entries.last().name@, outcomes.last()) {
            Some(w) => rest.push(w),
            None => rest,
        }
    }
}

pub fn shortcut_warnings(entries: &[ShortcutEntry], outcomes: &[ShortcutOutcome]) -> (r: Vec<String>)
    requires
        entries.len() == outcomes.len(),
    ensures
        r.deep_view() == shortcut_warnings_of(entries@, outcomes@),
{
    let mut r: Vec<String> = Vec::new();
    let mut i: usize = 0;
    while i < entries.len()
        invariant
            i <= entries.len(),
            entries.len() == outcomes.len(),
            r.deep_view() == shortcut_warnings_of(entries@.take(i as int), outcomes@.take(i as int)),
        decreases entries.len() - i,
    {
        assert(entries@.take(i + 1).drop_last() == entries@.take(i as int));
        assert(outcomes@.take(i + 1).drop_last() == outcomes@.take(i as int));
        assert(entries@.take(i + 1).last() == entries@[i as int]);
        assert(outcomes@.take(i + 1).last() == outcomes@[i as int]);
        let ghost prev = r.deep_view();
        match &outcomes[i] {
            ShortcutOutcome::MissingExe => {
                let mut w = entries[i].name.clone();
                w.append(": executável não encontrado");
                r.push(w);
                assert(r.deep_view() =~= prev.push(w@));
            },
            ShortcutOutcome::Written => {},
            ShortcutOutcome::Failed(e) => {
                let mut w = entries[i].name.clone();
                w.append(": ");
                w.append(e.as_str());
                r.push(w);
                assert(r.deep_view() =~= prev.push(w@));
            },
        }
        i += 1;
    }
    assert(entries@.take(entries.len() as int) == entries@);
    assert(outcomes@.take(outcomes.len() as int) == outcomes@);
    r
}

/// How far a download has got, and where progress was last reported.
#[derive(Clone, Copy, Debug)]
pub struct DownloadProgress {
    pub done: u64,
    pub last_emit: u64,
    pub total: u64,
}

/// Bytes between two progress reports, so as not to flood the front end.
pub const PROGRESS_STEP_BYTES: u64 = 512 * 1024;

/// A download starts at zero; its total is the length the server announced,
/// else the size the release lists for the asset.
pub fn start_download(content_length: Option<u64>, asset_size: u64) -> (p: DownloadProgress)
    ensures
        p.done == 0,
        p.last_emit == 0,
        p.total == match content_length {
            Some(n) => n,
            None => asset_size,
        },
{
    let total = match content_length {
        Some(n) => n,
        None => asset_size,
    };
    DownloadProgress { done: 0, last_emit: 0, total }
}

/// A chunk of `chunk` bytes arrived: progress is reported when more than
/// `PROGRESS_STEP_BYTES` came since the last report, or the download is
/// complete. The report never runs ahead of what arrived.
pub fn advance_download(p: DownloadProgress, chunk: u64) -> (r: (DownloadProgress, bool))
    requires
        p.last_emit <= p.done,
        p.done + chunk <= u64::MAX,
    ensures
        r.0.done == p.done + chunk,
        r.0.total == p.total,
        r.1 == (p.done + chunk - p.last_emit > PROGRESS_STEP_BYTES || p.done + chunk == p.total),
        r.0.last_emit == if r.1 {
            r.0.done
        } else {
            p.last_emit
        },
        r.0.last_emit <= r.0.done,
{
    let done = p.done + chunk;
    let emit = done - p.last_emit > PROGRESS_STEP_BYTES || done == p.total;
    let last_emit = if emit {
        done
    } else {
        p.last_emit
    };
    (DownloadProgress { done, last_emit, total: p.total }, emit)
}

/// Nothing in the download folder should outlive a few minutes: a file
/// older than this is left over.
pub const STALE_DOWNLOAD_SECS: u64 = 600;

/// A file of the download folder is stale when it was last written more
/// than `STALE_DOWNLOAD_SECS` before `now`, or when its time is unknown
/// (times in seconds since the epoch).
pub fn download_is_stale(modified: Option<u64>, now: u64) -> (b: bool)
    ensures
        b == match modified {
            Some(t) => t < now - STALE_DOWNLOAD_SECS,
            None => true,
        },
{
    match modified {
        Some(t) => now >= STALE_DOWNLOAD_SECS && t < now - STALE_DOWNLOAD_SECS,
        None => true,
    }
}

/// On a machine with a package manager the native package comes first: a
/// release that has it installs it, and only a release without it falls
/// back to the pattern the catalogue asked for.
pub proof fn law_native_package_first(
    m: PkgManager,
    requested: Seq<char>,
    names: Seq<Seq<char>>,
    k: int,
)
    requires
        !(m is NoManager),
        is_first_glob(globs_in_order(m, requested), names, k),
    ensures
        !no_hit(manager_glob(m), names) ==> k == 0,
        no_hit(manager_glob(m), names) ==> k == 1 && globs_in_order(m, requested)[k] == requested,
{
    let g = globs_in_order(m, requested);
    assert(g[0] == manager_glob(m));
    if k == 1 {
        assert(no_hit(g[0], names));
    }
}

} // verus!
