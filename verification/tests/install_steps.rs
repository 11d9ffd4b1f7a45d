use taylorhub::detect::{InstallOrigin, InstalledInfo};
use taylorhub::install::{
    advance_download, appimage_destination, choose_asset, custom_asset_pattern, custom_index,
    custom_install_spec, custom_linux_install, download_is_stale, installer_failure_message,
    missing_pkexec_message, package_install_command, package_removal,
    payload_file_name, payload_is_package, pkg_failure_message, registered_custom_install,
    registry_entry_or_detected, registry_uninstall, self_update_refusal, self_update_target,
    shortcut_launchable, shortcut_warnings, start_download, uninstall_cmdline_ok,
    uninstall_invocation, uninstaller_failure_message, update_script, uses_package_manager,
    payload_origin, PayloadInstalled, ShortcutEntry, ShortcutOutcome, PROGRESS_STEP_BYTES,
};
use taylorhub::pkg::{asset_globs_in_order, PkgManager};
use taylorhub::registry::UninstallKey;
use taylorhub::release::{AssetInfo, ReleaseInfo};
use taylorhub::repo::CustomApp;

fn app(id: &str, repo: &str) -> CustomApp {
    CustomApp {
        id: id.to_string(),
        name: "LocalZIM".to_string(),
        repo: repo.to_string(),
        win_asset: "*x64-setup.exe".to_string(),
        linux_asset: String::new(),
        exe: "old.exe".to_string(),
    }
}

fn asset(name: &str) -> AssetInfo {
    AssetInfo { name: name.to_string(), url: format!("https://dl/{name}"), size: 7 }
}

fn key(display: &str, quiet: &str, normal: &str) -> UninstallKey {
    UninstallKey {
        display_name: display.to_string(),
        display_version: "1.2.3".to_string(),
        install_location: String::new(),
        display_icon: String::new(),
        quiet_uninstall: quiet.to_string(),
        uninstall: normal.to_string(),
    }
}

fn info(installed: bool) -> InstalledInfo {
    InstalledInfo {
        id: "x".to_string(),
        installed,
        version: "2.0".to_string(),
        location: "/loc".to_string(),
        exe: "/loc/x".to_string(),
        source: "registry".to_string(),
    }
}

#[test]
fn system_packages_are_told_by_their_lowercased_name() {
    assert!(payload_is_package("/d/Hub-1.0-1-x86_64.PKG.TAR.ZST"));
    assert!(payload_is_package("/d/hub_1.0_amd64.deb"));
    assert_eq!(payload_file_name("/tmp/dl/TaylorHub_0.1_AMD64.DEB"), "taylorhub_0.1_amd64.deb");
    assert!(payload_is_package("/tmp/dl/TaylorHub_0.1_AMD64.DEB"));
    assert!(!payload_is_package("/tmp/dl/TaylorHub.AppImage"));
    assert_eq!(payload_file_name("/"), "");
}

#[test]
fn appimage_goes_over_the_current_one_only_where_its_folder_exists() {
    let here = |d: &String| d == "/home/u/Apps";
    assert_eq!(
        appimage_destination(&Some("/home/u/Apps/X.AppImage".to_string()), "/home/u/Applications", "X", here),
        "/home/u/Apps/X.AppImage"
    );
    assert_eq!(
        appimage_destination(&Some("/gone/X.AppImage".to_string()), "/home/u/Applications", "X", here),
        "/home/u/Applications/X.AppImage"
    );
    assert_eq!(
        appimage_destination(&Some(String::new()), "/home/u/Applications", "X", here),
        "/home/u/Applications/X.AppImage"
    );
    assert_eq!(appimage_destination(&None, "/a", "Y", here), "/a/Y.AppImage");
}

#[test]
fn package_sources_and_refusals() {
    assert!(uses_package_manager("deb"));
    assert!(uses_package_manager("pacman"));
    assert!(!uses_package_manager("hub"));
    assert_eq!(
        self_update_refusal(PkgManager::NoManager),
        "O Hub não está rodando como AppImage, então não há o que atualizar no lugar."
    );
    assert_eq!(
        self_update_refusal(PkgManager::Pacman),
        "O Hub foi instalado como pacote de sistema. Baixe a versão nova da página de releases e instale com `sudo pacman -U <arquivo>` — atualizar por baixo do gerenciador deixaria ele com a informação errada."
    );
    assert_eq!(
        self_update_refusal(PkgManager::Apt),
        "O Hub foi instalado como pacote de sistema. Baixe a versão nova da página de releases e instale com `sudo apt install ./ <arquivo>` — atualizar por baixo do gerenciador deixaria ele com a informação errada."
    );
}

#[test]
fn package_command_failures_explain_themselves() {
    assert_eq!(pkg_failure_message(Some(126), "sudo x"), "Autorização cancelada ou negada.");
    assert_eq!(pkg_failure_message(Some(127), "sudo x"), "Autorização cancelada ou negada.");
    assert_eq!(
        pkg_failure_message(Some(1), "sudo pacman -U a"),
        "O gerenciador de pacotes saiu com código Some(1). Pra ver a mensagem dele, rode:\n\nsudo pacman -U a"
    );
    assert_eq!(
        pkg_failure_message(None, "m"),
        "O gerenciador de pacotes saiu com código None. Pra ver a mensagem dele, rode:\n\nm"
    );
    assert_eq!(
        missing_pkexec_message("sudo apt-get install -y /f.deb"),
        "Esta máquina não tem `pkexec` (polkit), então o Hub não consegue pedir a senha de administrador. Rode você mesmo num terminal:\n\nsudo apt-get install -y /f.deb"
    );
    assert_eq!(installer_failure_message("LocalZIM", Some(2)), "Instalador de LocalZIM saiu com código Some(2)");
    assert_eq!(uninstaller_failure_message(None), "Desinstalador saiu com código None");
}

#[test]
fn uninstall_command_lines_are_split() {
    let (prog, args) =
        uninstall_invocation("", "\"C:\\Program Files\\App\\uninstall.exe\" /x  /y").unwrap();
    assert_eq!(prog, "C:\\Program Files\\App\\uninstall.exe");
    assert_eq!(args, vec!["/x", "/y", "/S"]);
    let (prog, args) = uninstall_invocation("C:\\App\\unins000.exe /SILENT", "ignored").unwrap();
    assert_eq!(prog, "C:\\App\\unins000.exe");
    assert_eq!(args, vec!["/SILENT"]);
    let (prog, args) = uninstall_invocation("", "C:\\App\\u.exe").unwrap();
    assert_eq!(prog, "C:\\App\\u.exe");
    assert_eq!(args, vec!["/S"]);
    assert_eq!(uninstall_invocation("", ""), None);
    assert!(uninstall_cmdline_ok("", "\"C:\\a b\\u.exe\""));
    assert!(!uninstall_cmdline_ok("", "\"C:\\a b\\u.exe"));
    assert!(uninstall_cmdline_ok("", ""));
}

#[test]
fn registry_uninstall_takes_the_first_key_naming_the_app() {
    let keys = vec![
        key("Other", "", "other.exe"),
        key("LocalZIM 1.2.3", "", "\"C:\\Z\\uninstall.exe\""),
        key("LocalZIM", "q.exe /quiet", "n.exe"),
    ];
    let (prog, args) = registry_uninstall("LocalZIM", &keys).unwrap();
    assert_eq!(prog, "C:\\Z\\uninstall.exe");
    assert_eq!(args, vec!["/S"]);
    assert_eq!(
        registry_uninstall("Nope", &keys),
        Err("Nope: não encontrado no registro".to_string())
    );
    let keys = vec![key("LocalZIM", "", "")];
    assert_eq!(
        registry_uninstall("LocalZIM", &keys),
        Err("LocalZIM: sem UninstallString no registro".to_string())
    );
    // "LocalZIMX" is another product, not a version of this one.
    assert_eq!(
        registry_uninstall("LocalZIM", &[key("LocalZIMX", "", "x.exe")]),
        Err("LocalZIM: não encontrado no registro".to_string())
    );
}

#[test]
fn asset_choice_takes_the_first_glob_that_matches() {
    let rel = ReleaseInfo {
        tag: "v1.0".to_string(),
        version: "1.0".to_string(),
        assets: vec![asset("hub_1.0_amd64.AppImage"), asset("hub-1.0-1-x86_64.pkg.tar.zst")],
    };
    let globs = vec!["*.pkg.tar.zst".to_string(), "*_amd64.AppImage".to_string()];
    let a = choose_asset(&rel, &globs, Some("o/hub")).unwrap();
    assert_eq!(a.name, "hub-1.0-1-x86_64.pkg.tar.zst");
    assert_eq!(a.url, "https://dl/hub-1.0-1-x86_64.pkg.tar.zst");
    let globs = vec!["*.deb".to_string(), "*.exe".to_string()];
    assert_eq!(
        choose_asset(&rel, &globs, Some("o/hub")).err().unwrap(),
        "Nenhum asset da release v1.0 de o/hub casa com '*.deb' nem '*.exe'"
    );
    assert_eq!(
        choose_asset(&rel, &["*.msi".to_string()], None).err().unwrap(),
        "Nenhum asset da release v1.0 casa com '*.msi'"
    );
}

#[test]
fn custom_repositories_are_found_and_prepared() {
    let list = vec![app("custom-a", "o/a"), app("custom-b", "o/b")];
    assert_eq!(custom_index(&list, "custom-b"), Ok(1));
    assert_eq!(custom_index(&list, "custom-c"), Err("Repositório não está na lista".to_string()));
    assert_eq!(custom_asset_pattern(&list[0], true), Ok("*x64-setup.exe".to_string()));
    assert_eq!(
        custom_asset_pattern(&list[0], false),
        Err("A release desse repositório não tem asset pra esta plataforma".to_string())
    );
    let s = custom_install_spec(&list[0]);
    assert_eq!((s.id.as_str(), s.name.as_str(), s.repo.as_str(), s.exe.as_str()), ("custom-a", "LocalZIM", "o/a", "old.exe"));
    assert_eq!(s.silent_args, vec!["/S"]);
    assert!(s.asset_pattern.is_empty() && s.current_path.is_none() && s.icon_url.is_none());
}

#[test]
fn windows_custom_install_records_what_the_registry_says() {
    let c = app("custom-a", "o/a");
    let (i, c2) = registered_custom_install(
        c,
        "Local ZIM".to_string(),
        String::new(),
        "/p/LocalZIM.exe".to_string(),
        "/p".to_string(),
        "9.9".to_string(),
    );
    assert_eq!((i.id.as_str(), i.version.as_str(), i.source.as_str()), ("custom-a", "9.9", "registry"));
    assert!(i.installed);
    assert_eq!((c2.name.as_str(), c2.exe.as_str()), ("Local ZIM", "LocalZIM.exe"));

    let found = Some(("N".to_string(), "1".to_string(), "e".to_string(), "l".to_string()));
    assert_eq!(registry_entry_or_detected(found.clone(), "M".to_string(), info(true), "3".to_string()), found.unwrap());
    assert_eq!(
        registry_entry_or_detected(None, "M".to_string(), info(true), "3".to_string()),
        ("M".to_string(), "2.0".to_string(), "/loc/x".to_string(), "/loc".to_string())
    );
    assert_eq!(
        registry_entry_or_detected(None, "M".to_string(), info(false), "3".to_string()),
        ("M".to_string(), "3".to_string(), String::new(), String::new())
    );
}

#[test]
fn linux_custom_install_is_an_appimage() {
    let i = custom_linux_install(
        "custom-a".to_string(),
        PayloadInstalled::AppImage("/home/u/Applications/A.AppImage".to_string()),
        "1.0".to_string(),
    )
    .unwrap();
    assert_eq!(i.location, "/home/u/Applications");
    assert_eq!(i.exe, "/home/u/Applications/A.AppImage");
    assert_eq!(i.source, "hub");
    assert_eq!(i.version, "1.0");
    assert_eq!(
        custom_linux_install("custom-a".to_string(), PayloadInstalled::Managed(PkgManager::Apt), "1.0".to_string()).err().unwrap(),
        "Repositórios adicionados por link ainda só instalam AppImage no Linux. Instale este pacote pelo gerenciador da sua distro."
    );
}

#[test]
fn package_install_needs_a_manager() {
    assert_eq!(
        package_install_command(PkgManager::Apt, "/tmp/X.deb").unwrap(),
        vec!["pkexec", "apt-get", "install", "-y", "/tmp/X.deb"]
    );
    assert_eq!(
        package_install_command(PkgManager::NoManager, "/tmp/X.DEB").err().unwrap(),
        "Baixei um pacote de sistema (x.deb) mas esta máquina não tem pacman nem apt."
    );
}

#[test]
fn package_removal_asks_the_manager_first() {
    assert_eq!(
        package_removal(PkgManager::NoManager, "TaylorHub", Some("taylor-hub\n".to_string())).err().unwrap(),
        "TaylorHub está instalado como pacote de sistema, mas não achei pacman nem apt nesta máquina pra removê-lo."
    );
    assert_eq!(
        package_removal(PkgManager::Pacman, "TaylorHub", Some("gtk3\n  taylor-hub  \nzlib\n".to_string())).unwrap(),
        vec!["pkexec", "pacman", "-R", "--noconfirm", "taylor-hub"]
    );
    let not_found = "Não achei um pacote instalado com o nome de TaylorHub no apt. Por segurança o Hub não remove um pacote que ele não conseguiu confirmar.";
    assert_eq!(package_removal(PkgManager::Apt, "TaylorHub", Some("gtk3\n".to_string())).err().unwrap(), not_found);
    assert_eq!(package_removal(PkgManager::Apt, "TaylorHub", None).err().unwrap(), not_found);
    assert_eq!(
        package_removal(PkgManager::Pacman, "TaylorHub", Some("taylor hub\n".to_string())).err().unwrap(),
        "Nome de pacote recusado por segurança: \"taylor hub\""
    );
}

#[test]
fn self_update_writes_beside_the_appimage() {
    assert_eq!(
        self_update_target(Some("/opt/Hub.AppImage".to_string()), PkgManager::Pacman),
        Ok(("/opt/Hub.AppImage".to_string(), "/opt/Hub.AppImage.new".to_string()))
    );
    assert_eq!(self_update_target(None, PkgManager::Apt).err().unwrap(), self_update_refusal(PkgManager::Apt));
    assert_eq!(
        update_script("C:\\d\\setup.exe", "C:\\t\\u.log", "C:\\Hub\\hub.exe"),
        "@echo off\r\nrem gerado pelo TaylorHub: instala a atualizacao e reabre o app\r\nping -n 4 127.0.0.1 >nul\r\n\"C:\\d\\setup.exe\" /S >\"C:\\t\\u.log\" 2>&1\r\ndel \"C:\\d\\setup.exe\"\r\nstart \"\" \"C:\\Hub\\hub.exe\"\r\ndel \"%~f0\"\r\n"
    );
}

#[test]
fn shortcut_warnings_follow_the_entries() {
    let exists = |p: &String| p == "/a";
    assert!(shortcut_launchable(&"/a".to_string(), exists));
    assert!(!shortcut_launchable(&"/b".to_string(), exists));
    assert!(!shortcut_launchable(&String::new(), |_: &String| true));
    let entries = vec![
        ShortcutEntry { id: "a".to_string(), name: "A".to_string(), exe: "/a".to_string() },
        ShortcutEntry { id: "b".to_string(), name: "B".to_string(), exe: "/b".to_string() },
        ShortcutEntry { id: "c".to_string(), name: "C".to_string(), exe: "/c".to_string() },
    ];
    let outcomes = vec![
        ShortcutOutcome::Written,
        ShortcutOutcome::MissingExe,
        ShortcutOutcome::Failed("permissão negada".to_string()),
    ];
    assert_eq!(
        shortcut_warnings(&entries, &outcomes),
        vec!["B: executável não encontrado", "C: permissão negada"]
    );
}

#[test]
fn download_progress_is_reported_in_steps() {
    let p = start_download(None, 2_000_000);
    assert_eq!((p.done, p.last_emit, p.total), (0, 0, 2_000_000));
    let p = start_download(Some(10), 2_000_000);
    assert_eq!(p.total, 10);
    let p = start_download(None, 2_000_000);
    let (p, emit) = advance_download(p, PROGRESS_STEP_BYTES);
    assert!(!emit, "exactly one step is not more than one step");
    let (p, emit) = advance_download(p, 1);
    assert!(emit);
    assert_eq!(p.last_emit, PROGRESS_STEP_BYTES + 1);
    let rest = 2_000_000 - p.done;
    let (p, emit) = advance_download(p, rest);
    assert!(emit);
    assert_eq!(p.done, 2_000_000);
}

#[test]
fn stale_downloads_are_older_than_ten_minutes() {
    assert!(download_is_stale(None, 5));
    assert!(download_is_stale(Some(1000), 1601));
    assert!(!download_is_stale(Some(1000), 1600));
    assert!(!download_is_stale(Some(0), 100));
}

#[test]
fn the_native_package_wins_when_the_release_has_it() {
    let both = ReleaseInfo {
        tag: "v2".to_string(),
        version: "2".to_string(),
        assets: vec![asset("Hub_2_amd64.AppImage"), asset("Hub_2_amd64.deb")],
    };
    let only_appimage =
        ReleaseInfo { tag: "v2".to_string(), version: "2".to_string(), assets: vec![asset("Hub_2_amd64.AppImage")] };
    let globs = asset_globs_in_order(PkgManager::Apt, "*_amd64.AppImage");
    assert_eq!(globs, vec!["*_amd64.deb", "*_amd64.AppImage"]);
    assert_eq!(choose_asset(&both, &globs, None).unwrap().name, "Hub_2_amd64.deb");
    assert_eq!(choose_asset(&only_appimage, &globs, None).unwrap().name, "Hub_2_amd64.AppImage");
    let globs = asset_globs_in_order(PkgManager::NoManager, "*_amd64.AppImage");
    assert_eq!(globs, vec!["*_amd64.AppImage"]);
    assert_eq!(choose_asset(&both, &globs, None).unwrap().name, "Hub_2_amd64.AppImage");
}

#[test]
fn exit_codes_are_written_as_debug_writes_them() {
    use_decimal();
    assert_eq!(installer_failure_message("X", Some(i32::MIN)), "Instalador de X saiu com código Some(-2147483648)");
    assert_eq!(uninstaller_failure_message(Some(0)), "Desinstalador saiu com código Some(0)");
    for code in [None, Some(0), Some(7), Some(10), Some(-1), Some(i32::MAX), Some(i32::MIN)] {
        assert_eq!(uninstaller_failure_message(code), format!("Desinstalador saiu com código {:?}", code));
    }
}

fn use_decimal() {
    assert_eq!(taylorhub::text::decimal_of(0), "0");
    assert_eq!(taylorhub::text::decimal_of(-45), "-45");
    assert_eq!(taylorhub::text::decimal_of(1000), "1000");
}

#[test]
fn a_linux_install_reports_where_it_put_the_app() {
    assert!(matches!(payload_origin(PayloadInstalled::Managed(PkgManager::Pacman)), InstallOrigin::Pacman));
    assert!(matches!(payload_origin(PayloadInstalled::Managed(PkgManager::Apt)), InstallOrigin::Deb));
    assert_eq!(payload_origin(PayloadInstalled::AppImage("/a/B.AppImage".to_string())), InstallOrigin::AppImage);
}
