use taylorhub::detect::{
    appimage_match, detected_info, dpkg_entry, dpkg_exe, find_package, installed_or_reported,
    linux_detection, InstallOrigin,
    not_installed, pacman_exe, DetectSpec, Found,
};
use taylorhub::dispatch::{
    dispatch_target, dropped_extensions, known_mime, mime_type_for, open_target, route_for_file,
    AssocEntry,
};
use taylorhub::paths::{config_dir_for, parent_text};
use taylorhub::registry::{
    display_name_matches, first_named_key, folder_app_exe, hive_path, keys_added, registry_detection,
    tagged_key, uninstall_entry, untag_key, UninstallHive, UninstallKey,
};
use taylorhub::repo::{repo_to_add, CustomApp};

fn route(ext: &str, exe: &str) -> AssocEntry {
    AssocEntry {
        ext: ext.to_string(),
        app_id: "app".to_string(),
        app_name: "App".to_string(),
        exe: exe.to_string(),
    }
}

fn key(display: &str, location: &str) -> UninstallKey {
    UninstallKey {
        display_name: display.to_string(),
        display_version: "0.14.6".to_string(),
        install_location: location.to_string(),
        display_icon: String::new(),
        quiet_uninstall: String::new(),
        uninstall: "u.exe".to_string(),
    }
}

#[test]
fn not_installed_has_only_the_id() {
    let i = not_installed("local-office".to_string());
    assert_eq!(i.id, "local-office");
    assert!(!i.installed);
    assert!(i.version.is_empty() && i.location.is_empty() && i.exe.is_empty() && i.source.is_empty());
}

#[test]
fn each_source_reports_its_name_and_folder() {
    let i = detected_info(
        "a".to_string(),
        Some(Found::Hub { version: "1.0".to_string(), path: "/home/u/Applications/A.AppImage".to_string() }),
    );
    assert_eq!((i.location.as_str(), i.exe.as_str(), i.source.as_str()), ("/home/u/Applications", "/home/u/Applications/A.AppImage", "hub"));
    let i = detected_info(
        "a".to_string(),
        Some(Found::AppImage { version: "2".to_string(), path: "/x/A.AppImage".to_string() }),
    );
    assert_eq!((i.location.as_str(), i.source.as_str()), ("/x", "appimage"));
    let i = detected_info("a".to_string(), Some(Found::Pacman { version: "3".to_string(), exe: "/usr/bin/a".to_string() }));
    assert_eq!((i.location.as_str(), i.exe.as_str(), i.source.as_str()), ("", "/usr/bin/a", "pacman"));
    let i = detected_info("a".to_string(), Some(Found::Deb { version: "4".to_string(), exe: String::new() }));
    assert_eq!((i.version.as_str(), i.source.as_str()), ("4", "deb"));
    let i = detected_info(
        "a".to_string(),
        Some(Found::Registry { version: "5".to_string(), exe: "C:/a.exe".to_string(), location: "C:/".to_string() }),
    );
    assert_eq!((i.exe.as_str(), i.location.as_str(), i.source.as_str()), ("C:/a.exe", "C:/", "registry"));
    assert!(!detected_info("a".to_string(), None).installed);
}

#[test]
fn an_install_is_reported_even_when_detection_misses_it() {
    let missed = || not_installed("a".to_string());
    let i = installed_or_reported(missed(), "a".to_string(), "1.2".to_string(), InstallOrigin::Registry);
    assert!(i.installed);
    assert_eq!((i.version.as_str(), i.source.as_str(), i.exe.as_str(), i.location.as_str()), ("1.2", "registry", "", ""));
    let i = installed_or_reported(missed(), "a".to_string(), "1.2".to_string(), InstallOrigin::AppImage);
    assert_eq!((i.source.as_str(), i.exe.as_str(), i.location.as_str()), ("hub", "", ""));
    let i = installed_or_reported(missed(), "a".to_string(), "1.2".to_string(), InstallOrigin::Pacman);
    assert_eq!(i.source, "pacman");
    let i = installed_or_reported(missed(), "a".to_string(), "1.2".to_string(), InstallOrigin::Deb);
    assert_eq!(i.source, "deb");
    let seen = detected_info("a".to_string(), Some(Found::Deb { version: "9".to_string(), exe: "/usr/bin/a".to_string() }));
    let i = installed_or_reported(seen, "a".to_string(), "1.2".to_string(), InstallOrigin::Pacman);
    assert_eq!((i.version.as_str(), i.source.as_str()), ("9", "deb"));
}

fn probe(v: Option<(&str, &str)>) -> Option<(String, String)> {
    v.map(|(a, b)| (a.to_string(), b.to_string()))
}

#[test]
fn linux_probes_answer_in_order_of_precedence() {
    let rec = probe(Some(("1.0", "/home/u/Applications/A.AppImage")));
    let here = |p: &String| p == "/home/u/Applications/A.AppImage";
    let i = linux_detection("a".to_string(), rec.clone(), here, || probe(Some(("2", "/x/A.AppImage"))), || None, || None);
    assert_eq!((i.version.as_str(), i.source.as_str()), ("1.0", "hub"));
    // The recorded file is gone: the next probe answers.
    let i = linux_detection("a".to_string(), rec, |_: &String| false, || probe(Some(("2", "/x/A.AppImage"))), || None, || None);
    assert_eq!((i.version.as_str(), i.source.as_str(), i.location.as_str()), ("2", "appimage", "/x"));
    let i = linux_detection("a".to_string(), None, here, || None, || probe(Some(("3", "/usr/bin/a"))), || probe(Some(("4", "/usr/bin/b"))));
    assert_eq!((i.version.as_str(), i.source.as_str()), ("3", "pacman"));
    let i = linux_detection("a".to_string(), None, here, || None, || None, || probe(Some(("4", "/usr/bin/b"))));
    assert_eq!((i.version.as_str(), i.source.as_str()), ("4", "deb"));
    let i = linux_detection("a".to_string(), None, here, || None, || None, || None);
    assert!(!i.installed);
    assert!(i.source.is_empty());
    // A probe after the one that found the app is not asked.
    let i = linux_detection(
        "a".to_string(),
        None,
        here,
        || probe(Some(("2", "/x/A.AppImage"))),
        || panic!("pacman asked after the AppImage was found"),
        || panic!("dpkg asked after the AppImage was found"),
    );
    assert_eq!(i.source, "appimage");
}

#[test]
fn appimages_in_applications_are_matched_by_name() {
    assert_eq!(appimage_match("LocalOffice_0.14.6_amd64.AppImage", "LocalOffice"), Some("0.14.6".to_string()));
    assert_eq!(appimage_match("localoffice.appimage", "LocalOffice"), Some(String::new()));
    assert_eq!(appimage_match("LocalOffice.tar.gz", "LocalOffice"), None);
    assert_eq!(appimage_match("Other_1.0.AppImage", "LocalOffice"), None);
}

#[test]
fn package_listings_are_searched_by_normalized_name() {
    let listing = "gtk3\n  open-obsidian \nzlib\n";
    assert_eq!(find_package(listing, "OpenObsidian", false), Some("open-obsidian".to_string()));
    assert_eq!(find_package(listing, "LocalMind", false), None);
    // A name with no letters or digits normalizes to nothing: blank lines
    // count only when they are not skipped.
    assert_eq!(find_package("\nx\n", "--", false), Some(String::new()));
    assert_eq!(find_package("\nx\n", "--", true), None);
    assert_eq!(
        pacman_exe("taylor-hub /usr/\ntaylor-hub /usr/bin/\ntaylor-hub /usr/bin/taylor-hub\n"),
        "/usr/bin/taylor-hub"
    );
    assert_eq!(pacman_exe("x /usr/share/x\n"), "");
    assert_eq!(dpkg_exe("/.\n/usr\n/usr/bin/open-obsidian\n"), "/usr/bin/open-obsidian");
    assert_eq!(dpkg_exe("/usr/share\n"), "");
    assert_eq!(
        dpkg_entry("gtk3\t3.24\nopen-obsidian\t1:0.7.1-1\n", "OpenObsidian"),
        Some(("open-obsidian".to_string(), "0.7.1".to_string()))
    );
    assert_eq!(dpkg_entry("open-obsidian\n", "OpenObsidian"), Some(("open-obsidian".to_string(), String::new())));
    assert_eq!(dpkg_entry("gtk3\t3.24\n", "OpenObsidian"), None);
}

#[test]
fn registry_keys_name_an_app_exactly_or_with_a_version() {
    assert!(display_name_matches("LocalZIM", "LocalZIM"));
    assert!(display_name_matches("LocalZIM 1.2.3", "LocalZIM"));
    assert!(!display_name_matches("LocalZIMX", "LocalZIM"));
    let keys = vec![key("Other", ""), key("LocalZIM 0.14.6", "C:/Z"), key("LocalZIM", "C:/Y")];
    assert_eq!(first_named_key(&keys, "LocalZIM"), Some(1));
    assert_eq!(first_named_key(&keys, "Nope"), None);
}

#[test]
fn registry_detection_resolves_the_first_named_key() {
    let exe = std::path::Path::new("C:/Z").join("LocalZIM.exe").to_string_lossy().to_string();
    let keys = vec![key("Other", ""), key("LocalZIM 0.14.6", "\"C:/Z\"")];
    let spec = DetectSpec { id: "zim".to_string(), name: "LocalZIM".to_string(), exe: "LocalZIM.exe".to_string() };
    let want = exe.clone();
    let i = registry_detection(&spec, &keys, move |p: &String| *p == want);
    assert!(i.installed);
    assert_eq!((i.version.as_str(), i.exe.as_str(), i.location.as_str(), i.source.as_str()), ("0.14.6", exe.as_str(), "C:/Z", "registry"));
    let spec = DetectSpec { id: "x".to_string(), name: "Nope".to_string(), exe: "n.exe".to_string() };
    let i = registry_detection(&spec, &keys, |_: &String| true);
    assert!(!i.installed);
    assert_eq!(i.id, "x");
}

#[test]
fn routes_and_mime_types() {
    assert_eq!(known_mime("md"), Some("text/markdown"));
    assert_eq!(known_mime("yml"), Some("application/yaml"));
    assert_eq!(known_mime("tslides"), None);
    assert_eq!(mime_type_for("tslides"), "application/x-taylor-tslides");
    assert_eq!(mime_type_for("csv"), "text/csv");
    let old = vec![route("md", "a"), route("py", "b"), route("go", "c")];
    let new = vec![route("go", "c"), route("rs", "d")];
    assert_eq!(dropped_extensions(&old, &new), vec!["md", "py"]);
    assert!(dropped_extensions(&new, &new).is_empty());
    let entries = vec![route("md", "/w"), route("md", "/v"), route("py", "")];
    assert_eq!(route_for_file("/docs/Notes.MD", &entries), Some(0));
    assert_eq!(route_for_file("/docs/Makefile", &entries), None);
    assert_eq!(route_for_file("/docs/a.txt", &entries), None);
}

#[test]
fn open_mode_hands_the_file_to_an_existing_app() {
    let args = vec!["hub".to_string(), "--open".to_string(), "/d/a.md".to_string()];
    assert_eq!(open_target(&args), Some("/d/a.md".to_string()));
    assert_eq!(open_target(&args[..2]), None);
    assert_eq!(open_target(&["hub".to_string(), "--help".to_string(), "x".to_string()]), None);
    let entries = vec![route("md", "/w"), route("py", "")];
    assert_eq!(dispatch_target("/d/a.MD", &entries, |p: &String| p == "/w"), Some("/w".to_string()));
    assert_eq!(dispatch_target("/d/a.md", &entries, |_: &String| false), None);
    assert_eq!(dispatch_target("/d/a.py", &entries, |_: &String| true), None);
    assert_eq!(dispatch_target("/d/a", &entries, |_: &String| true), None);
}

#[test]
fn paths_of_the_configuration() {
    assert_eq!(parent_text("/a/b/c.txt"), "/a/b");
    assert_eq!(parent_text("/"), "");
    assert_eq!(config_dir_for(false, None, Some("/x".to_string()), Some("/home/u".to_string())), "/x/taylorhub");
    assert_eq!(config_dir_for(false, None, None, Some("/home/u".to_string())), "/home/u/.config/taylorhub");
    assert_eq!(config_dir_for(false, None, None, None), "./.config/taylorhub");
    assert_eq!(config_dir_for(true, Some("/appdata".to_string()), None, None), "/appdata/TaylorHub");
    assert_eq!(config_dir_for(true, None, Some("/x".to_string()), None), "./TaylorHub");
}

fn icon_key(name: &str, location: &str, icon: &str) -> UninstallKey {
    UninstallKey {
        display_name: name.to_string(),
        display_version: "1.0".to_string(),
        install_location: location.to_string(),
        display_icon: icon.to_string(),
        quiet_uninstall: String::new(),
        uninstall: String::new(),
    }
}

#[test]
fn a_new_key_names_the_installed_app() {
    let k = icon_key("LocalZIM", "", "\"/p/LocalZIM.EXE\"");
    assert_eq!(
        uninstall_entry(&k, |p: &String| p == "/p/LocalZIM.EXE", None),
        Some(("LocalZIM".to_string(), "1.0".to_string(), "/p/LocalZIM.EXE".to_string(), "/p".to_string()))
    );
    let k = icon_key("LocalZIM", "\"/q\"", "/p/icon.ico");
    assert_eq!(
        uninstall_entry(&k, |_: &String| true, Some("/q/LocalZIM.exe".to_string())),
        Some(("LocalZIM".to_string(), "1.0".to_string(), "/q/LocalZIM.exe".to_string(), "/q".to_string()))
    );
    let k = icon_key("LocalZIM", "", "/p/gone.exe");
    assert_eq!(
        uninstall_entry(&k, |_: &String| false, Some("/x.exe".to_string())),
        Some(("LocalZIM".to_string(), "1.0".to_string(), String::new(), String::new()))
    );
    assert_eq!(uninstall_entry(&icon_key("", "/q", ""), |_: &String| true, None), None);
}

#[test]
fn the_folder_executable_is_not_the_uninstaller() {
    let files = vec![
        ("readme.txt".to_string(), "/q/readme.txt".to_string()),
        ("Uninstall LocalZIM.exe".to_string(), "/q/Uninstall LocalZIM.exe".to_string()),
        ("LocalZIM.EXE".to_string(), "/q/LocalZIM.EXE".to_string()),
    ];
    assert_eq!(folder_app_exe(&files), Some("/q/LocalZIM.EXE".to_string()));
    assert_eq!(folder_app_exe(&files[..2]), None);
}

#[test]
fn new_registry_keys_are_those_the_installer_added() {
    let before = vec!["hkcu\\A".to_string(), "hklm\\B".to_string()];
    let after = vec!["hklm\\B".to_string(), "hkcu\\C".to_string(), "hkcu\\A".to_string(), "wow\\D".to_string()];
    assert_eq!(keys_added(&before, &after), vec!["hkcu\\C", "wow\\D"]);
    assert!(keys_added(&after, &before).is_empty());
}

#[test]
fn keys_are_tagged_with_their_hive() {
    assert_eq!(tagged_key(UninstallHive::CurrentUser, "{GUID}_is1"), "hkcu\\{GUID}_is1");
    assert_eq!(untag_key("hkcu\\{GUID}_is1"), Some((UninstallHive::CurrentUser, "{GUID}_is1".to_string())));
    assert_eq!(untag_key("hklm\\a\\b"), Some((UninstallHive::LocalMachine, "a\\b".to_string())));
    assert_eq!(untag_key("wow\\x"), Some((UninstallHive::LocalMachineWow, "x".to_string())));
    assert_eq!(untag_key("other\\x"), Some((UninstallHive::LocalMachineWow, "x".to_string())));
    assert_eq!(untag_key("nokey"), None);
    assert_eq!(hive_path(UninstallHive::CurrentUser), "Software\\Microsoft\\Windows\\CurrentVersion\\Uninstall");
    assert_eq!(hive_path(UninstallHive::LocalMachineWow), "Software\\WOW6432Node\\Microsoft\\Windows\\CurrentVersion\\Uninstall");
}

#[test]
fn a_repository_is_added_once() {
    let list = vec![CustomApp {
        id: "custom-o-r".to_string(),
        name: "r".to_string(),
        repo: "O/R".to_string(),
        win_asset: String::new(),
        linux_asset: String::new(),
        exe: String::new(),
    }];
    assert_eq!(repo_to_add("github.com/o/other", &list), Ok("o/other".to_string()));
    assert_eq!(repo_to_add("https://github.com/o/r", &list), Err("Esse repositório já está na lista".to_string()));
    assert_eq!(
        repo_to_add("not a repo", &list),
        Err("Endereço inválido — cole o link do repositório (github.com/dono/repo)".to_string())
    );
}
