use std::path::PathBuf;
use taylorhub::dispatch::{orphan_routes, partition_dispatch, AssocEntry};
use taylorhub::cleanup::path_is_within_bases;
use taylorhub::glob::glob_match;
use taylorhub::registry::{
    clean_display_icon, clean_install_location, exe_and_location_from_registry_values,
};
use taylorhub::release::{
    cache_is_fresh, guess_assets, AssetInfo, CachedRelease, ReleaseInfo, RELEASE_CACHE_TTL_SECS,
};
use taylorhub::repo::parse_repo;
use taylorhub::version::version_from_filename;

/// A file probe for which only the listed paths exist.
fn only(paths: &[&str]) -> impl Fn(&String) -> bool {
    let owned: Vec<PathBuf> = paths.iter().map(PathBuf::from).collect();
    move |p: &String| owned.iter().any(|x| *x == PathBuf::from(p))
}

/// A path built with the platform's separator.
fn p(parts: &[&str]) -> String {
    let mut b = PathBuf::new();
    for x in parts {
        b.push(x);
    }
    b.to_string_lossy().into_owned()
}

fn entry(ext: &str, app_id: &str, exe: &str) -> AssocEntry {
    AssocEntry {
        ext: ext.to_string(),
        app_id: app_id.to_string(),
        app_name: app_id.to_string(),
        exe: exe.to_string(),
    }
}

#[test]
fn install_location_entre_aspas_e_aparado() {
    let dir = p(&["base", "LocalZip"]);
    let exe = p(&["base", "LocalZip", "LocalZip.exe"]);
    let (achado, loc) = exe_and_location_from_registry_values(
        &format!("\"{dir}\""),
        "",
        "LocalZip.exe",
        only(&[&exe]),
    );
    assert_eq!(achado, exe, "as aspas do InstallLocation têm que sair");
    assert_eq!(loc, dir, "o location que vai pra UI não pode levar aspas");
}

#[test]
fn sem_install_location_cai_no_display_icon() {
    let exe = p(&["prog", "LocalMind", "LocalMind.exe"]);
    let dir = p(&["prog", "LocalMind"]);
    let (achado, loc) = exe_and_location_from_registry_values(
        "",
        &format!("{exe},0"),
        "LocalMind.exe",
        only(&[&exe]),
    );
    assert_eq!(achado, exe);
    assert_eq!(loc, dir, "sem InstallLocation, o location vem da pasta do ícone");
}

#[test]
fn install_location_obsoleto_nao_ganha_do_display_icon() {
    let antigo = p(&["antigo", "LocalZip"]);
    let novo = p(&["novo", "LocalZip.exe"]);
    let (achado, _) = exe_and_location_from_registry_values(
        &antigo,
        &format!("{novo},0"),
        "LocalZip.exe",
        only(&[&novo]),
    );
    assert_eq!(achado, novo);
}

#[test]
fn nada_encontrado_devolve_exe_vazio_e_nao_um_caminho_falso() {
    let (exe, _) = exe_and_location_from_registry_values(
        &p(&["x"]),
        &p(&["y", "a.exe"]),
        "a.exe",
        |_: &String| false,
    );
    assert_eq!(exe, "");
    let (exe, loc) = exe_and_location_from_registry_values("", "", "a.exe", |_: &String| true);
    assert_eq!((exe.as_str(), loc.as_str()), ("", ""));
    let (exe, loc) = exe_and_location_from_registry_values("  ", "  ", "a.exe", |_: &String| true);
    assert_eq!((exe.as_str(), loc.as_str()), ("", ""));
}

#[test]
fn display_icon_so_com_o_indice_nao_vira_caminho_vazio() {
    let (exe, _) = exe_and_location_from_registry_values("", ",0", "a.exe", |_: &String| true);
    assert_eq!(exe, "");
}

#[test]
fn virgula_dentro_das_aspas_e_parte_do_caminho() {
    assert_eq!(clean_display_icon("\"C:\\Rock, Paper\\app.exe\""), "C:\\Rock, Paper\\app.exe");
    assert_eq!(clean_display_icon("C:\\App\\app.exe,0"), "C:\\App\\app.exe");
    assert_eq!(clean_install_location("  \"C:\\App\"  "), "C:\\App");
    assert_eq!(clean_install_location(""), "");
}

/// The registry's real values: their cleaning does not depend on the
/// platform (joining and climbing those paths does, and follows Windows).
#[test]
fn valores_reais_do_registro_desta_maquina() {
    let loc = r#""C:\Users\Hades\AppData\Local\LocalZip""#;
    let icon = r#""C:\Users\Hades\AppData\Local\LocalZip\localzip.exe""#;
    assert_eq!(clean_install_location(loc), r"C:\Users\Hades\AppData\Local\LocalZip");
    assert_eq!(clean_display_icon(icon), r"C:\Users\Hades\AppData\Local\LocalZip\localzip.exe");
    let mind = r"C:\Users\Hades\AppData\Local\Programs\LocalMind\LocalMind.exe";
    assert_eq!(
        clean_display_icon(r"C:\Users\Hades\AppData\Local\Programs\LocalMind\LocalMind.exe,0"),
        mind
    );
    let (exe, _) = exe_and_location_from_registry_values(
        "",
        r"C:\Users\Hades\AppData\Local\Programs\LocalMind\LocalMind.exe,0",
        "LocalMind.exe",
        only(&[mind]),
    );
    assert_eq!(exe, mind);
}

#[test]
fn parse_repo_aceita_url_e_owner_repo() {
    for input in [
        "Anon5T4R/LocalZIM",
        "https://github.com/Anon5T4R/LocalZIM",
        "http://www.github.com/Anon5T4R/LocalZIM/",
        "github.com/Anon5T4R/LocalZIM.git",
    ] {
        assert_eq!(parse_repo(input).as_deref(), Some("Anon5T4R/LocalZIM"), "{input}");
    }
    for input in ["", "LocalZIM", "a/b/c", "github.com/só/inválido!", "https://gitlab.com"] {
        assert_eq!(parse_repo(input), None, "{input}");
    }
}

fn mk(names: &[&str]) -> Vec<AssetInfo> {
    names
        .iter()
        .map(|n| AssetInfo { name: n.to_string(), url: String::new(), size: 0 })
        .collect()
}

#[test]
fn guess_assets_prefere_o_glob_mais_especifico() {
    let assets = mk(&["App_1.0.0_x64-setup.exe", "App_1.0.0_amd64.AppImage", "app.tar.gz"]);
    let (win, linux) = guess_assets(&assets);
    assert_eq!(win, "*x64-setup.exe");
    assert_eq!(linux, "*amd64.appimage");

    let (win, linux) = guess_assets(&mk(&["Foo-Setup-2.1.exe"]));
    assert_eq!(win, "*setup*.exe");
    assert_eq!(linux, "");

    let (win, linux) = guess_assets(&mk(&["portable.zip"]));
    assert_eq!(win, "");
    assert_eq!(linux, "");
}

#[test]
fn cache_freshness() {
    let entry = CachedRelease {
        fetched_at: 1000,
        release: ReleaseInfo {
            tag: "v1.0.0".to_string(),
            version: "1.0.0".to_string(),
            assets: vec![],
        },
    };
    assert!(cache_is_fresh(&entry, 1000));
    assert!(cache_is_fresh(&entry, 1000 + RELEASE_CACHE_TTL_SECS - 1));
    assert!(!cache_is_fresh(&entry, 1000 + RELEASE_CACHE_TTL_SECS));
    assert!(cache_is_fresh(&entry, 500));
}

#[test]
fn version_from_names() {
    assert_eq!(
        version_from_filename("LocalOffice_0.14.6_amd64.AppImage").as_deref(),
        Some("0.14.6")
    );
    assert_eq!(version_from_filename("OpenObsidian-0.7.1.AppImage").as_deref(), Some("0.7.1"));
    assert_eq!(version_from_filename("TaylorMind-0.1.0.AppImage").as_deref(), Some("0.1.0"));
    assert_eq!(version_from_filename("LocalSheets.AppImage"), None);
    assert_eq!(version_from_filename("App2.AppImage"), None);
}

#[test]
fn glob_basics() {
    assert!(glob_match("*_x64-setup.exe", "LocalOffice_0.14.6_x64-setup.exe"));
    assert!(glob_match("TaylorMind.Setup.*.exe", "TaylorMind.Setup.0.1.0.exe"));
    assert!(glob_match("*_amd64.AppImage", "LocalSheets_0.4.0_amd64.AppImage"));
    assert!(glob_match("OpenObsidian*.AppImage", "OpenObsidian-0.7.1.AppImage"));
    assert!(!glob_match("*_x64-setup.exe", "LocalOffice_0.14.6_amd64.AppImage"));
    assert!(!glob_match("TaylorMind.Setup.*.exe", "TaylorMind-0.1.0-portable.exe"));
    assert!(glob_match("*_X64-SETUP.EXE", "localoffice_0.1.0_x64-setup.exe"));
}

#[test]
fn poda_por_app_ignora_as_rotas_de_outros_apps() {
    let entries = vec![entry("py", "code", "x"), entry("go", "code", "y"), entry("md", "writer", "z")];
    let (kept, removed) = partition_dispatch(entries, |e: &AssocEntry| e.app_id == "code");
    assert_eq!(kept.len(), 1, "só a rota do writer sobrevive");
    assert_eq!(kept[0].app_id, "writer");
    assert_eq!(removed.len(), 2, "as duas rotas do code somem");
    assert!(removed.iter().all(|e| e.app_id == "code"));
}

#[test]
fn orfa_e_a_que_o_exe_sumiu_do_disco() {
    let writer_exe = "C:/LocalOffice/writer.exe";
    let entries =
        vec![entry("py", "code", "C:/LocalCode/code.exe"), entry("md", "writer", writer_exe)];
    let (kept, removed) = orphan_routes(entries, only(&[writer_exe]));
    assert_eq!(kept.len(), 1, "a rota do app que ainda existe fica");
    assert_eq!(kept[0].ext, "md");
    assert_eq!(removed.len(), 1, "a do exe que sumiu vai pra fora");
    assert_eq!(removed[0].ext, "py");
}

#[test]
fn rota_com_exe_vazio_tambem_e_orfa() {
    let entries = vec![entry("tdraw", "draw", "")];
    let (kept, removed) = orphan_routes(entries, |_: &String| true);
    assert!(kept.is_empty());
    assert_eq!(removed.len(), 1);
}

#[test]
fn leftover_dir_so_e_seguro_dentro_do_appdata() {
    let bases = vec![r"C:\Users\Hades\AppData\Local".to_string()];
    assert!(
        path_is_within_bases(r"C:\Users\Hades\AppData\Local\LocalCode", &bases),
        "pasta de app dentro do LOCALAPPDATA é o caso de uso normal"
    );
    assert!(
        path_is_within_bases(r"c:\users\hades\appdata\local\LocalCode", &bases),
        "o Windows não distingue maiúsculas no caminho"
    );
    assert!(
        !path_is_within_bases(r"C:\Users\Hades\AppData\Local", &bases),
        "a raiz do LOCALAPPDATA em si nunca pode ser o alvo"
    );
    assert!(
        !path_is_within_bases(r"C:\Windows\System32", &bases),
        "caminho fora do AppData nunca é seguro, mesmo vindo de outro comando"
    );
}
