use taylorhub::pkg::{
    as_manual_command, asset_glob, install_cmd, norm_name, parse_pacman_query, pick_manager,
    remove_cmd, valid_pkg_name, PkgManager,
};

/// A simple glob: only a leading `*`, the form the asset globs use.
fn casa(glob: &str, nome: &str) -> bool {
    let suf = glob.trim_start_matches('*');
    nome.ends_with(suf)
}

#[test]
fn pacman_ganha_do_apt() {
    assert_eq!(pick_manager(true, true), PkgManager::Pacman);
    assert_eq!(pick_manager(true, false), PkgManager::Pacman);
    assert_eq!(pick_manager(false, true), PkgManager::Apt);
    assert_eq!(pick_manager(false, false), PkgManager::NoManager);
}

#[test]
fn sem_gerenciador_o_asset_e_o_appimage() {
    assert_eq!(asset_glob(PkgManager::NoManager), "*_amd64.AppImage");
    assert_eq!(asset_glob(PkgManager::Pacman), "*.pkg.tar.zst");
    assert_eq!(asset_glob(PkgManager::Apt), "*_amd64.deb");
}

#[test]
fn os_globs_casam_com_os_nomes_publicados() {
    assert!(casa(asset_glob(PkgManager::Pacman), "taylor-hub-0.23.2-1-x86_64.pkg.tar.zst"));
    assert!(casa(asset_glob(PkgManager::Apt), "TaylorHub_0.23.2_amd64.deb"));
    assert!(casa(asset_glob(PkgManager::NoManager), "TaylorHub_0.23.2_amd64.AppImage"));
    assert!(!casa(asset_glob(PkgManager::Pacman), "TaylorHub_0.23.2_amd64.deb"));
}

#[test]
fn instalar_monta_o_comando_certo_com_pkexec() {
    assert_eq!(
        install_cmd(PkgManager::Pacman, "/tmp/x.pkg.tar.zst").unwrap(),
        vec!["pkexec", "pacman", "-U", "--noconfirm", "/tmp/x.pkg.tar.zst"]
    );
    assert_eq!(
        install_cmd(PkgManager::Apt, "/tmp/x.deb").unwrap(),
        vec!["pkexec", "apt-get", "install", "-y", "/tmp/x.deb"]
    );
    assert!(install_cmd(PkgManager::NoManager, "/tmp/x.AppImage").is_none());
}

#[test]
fn o_caminho_do_apt_e_absoluto() {
    let cmd = install_cmd(PkgManager::Apt, "/home/u/.cache/hub/TaylorHub.deb").unwrap();
    let arquivo = cmd.last().unwrap();
    assert!(arquivo.starts_with('/'), "o apt precisa de caminho, não de nome solto");
}

#[test]
fn nome_de_pacote_torto_nao_vira_comando_de_remocao() {
    assert!(remove_cmd(PkgManager::Pacman, "taylor-hub").is_some());
    assert!(remove_cmd(PkgManager::Apt, "local-office").is_some());
    for ruim in ["", "-Rns", "--noconfirm", "a b", "a;rm -rf /", "../etc", "pkg$(id)", "pkg\nb"] {
        assert!(remove_cmd(PkgManager::Pacman, ruim).is_none(), "aceitou nome perigoso: {:?}", ruim);
    }
}

#[test]
fn nome_valido_aceita_o_alfabeto_real_de_pacote() {
    for bom in ["taylor-hub", "local_office", "gtk3", "webkit2gtk-4.1", "gcc-libs", "g++"] {
        assert!(valid_pkg_name(bom), "recusou nome legítimo: {}", bom);
    }
}

#[test]
fn caminho_que_parece_opcao_nao_vira_instalacao() {
    assert!(install_cmd(PkgManager::Pacman, "-U").is_none());
    assert!(install_cmd(PkgManager::Apt, "").is_none());
}

#[test]
fn comando_manual_troca_o_pkexec_por_sudo() {
    let cmd = install_cmd(PkgManager::Pacman, "/tmp/x.pkg.tar.zst").unwrap();
    assert_eq!(as_manual_command(&cmd), "sudo pacman -U --noconfirm /tmp/x.pkg.tar.zst");
    let cmd = remove_cmd(PkgManager::Apt, "taylor-hub").unwrap();
    assert_eq!(as_manual_command(&cmd), "sudo apt-get remove -y taylor-hub");
}

#[test]
fn o_nome_do_catalogo_casa_com_o_nome_do_pacote() {
    assert_eq!(norm_name("TaylorHub"), norm_name("taylor-hub"));
    assert_eq!(norm_name("LocalOffice"), norm_name("local-office"));
    assert_eq!(norm_name("LocalChessPGN"), norm_name("local-chess-pgn"));
    assert_ne!(norm_name("LocalMedia"), norm_name("local-mind"));
}

#[test]
fn versao_do_pacman_perde_pkgrel_e_epoch() {
    assert_eq!(parse_pacman_query("taylor-hub 0.23.2-1\n").as_deref(), Some("0.23.2"));
    assert_eq!(parse_pacman_query("local-office 1:0.16.7-2\n").as_deref(), Some("0.16.7"));
    assert_eq!(parse_pacman_query("x 1.0\n").as_deref(), Some("1.0"));
    assert_eq!(parse_pacman_query(""), None);
    assert_eq!(parse_pacman_query("semversao\n"), None);
}

#[test]
fn normalizing_twice_changes_nothing() {
    for name in ["TaylorHub", "taylor-hub", "Local Chess PGN!", "ÀéB9", ""] {
        assert_eq!(norm_name(&norm_name(name)), norm_name(name));
    }
    assert_eq!(norm_name("ÀéB9"), "b9");
}
