use taylorhub::glob::glob_match;
use taylorhub::recents::{drop_recent, keep_pinned, pin_recent, record_recent, RecentEntry, MAX_UNPINNED};
use taylorhub::release::{
    cached_icon, first_asset_for, icon_data_url, icon_file_name, latest_release_url,
    release_from_parts, select_asset, serve_from_cache, settle_fetch, settle_icon, status_hint,
    version_from_tag, AssetInfo, CachedRelease, ReleaseInfo,
};
use taylorhub::repo::{custom_app_from_release, new_custom_app, parse_repo, repo_listed, without_custom, CustomApp};
use taylorhub::version::version_from_filename;

fn asset(name: &str) -> AssetInfo {
    AssetInfo { name: name.to_string(), url: String::new(), size: 1 }
}

fn release(tag: &str, names: &[&str]) -> ReleaseInfo {
    ReleaseInfo {
        tag: tag.to_string(),
        version: tag.trim_start_matches('v').to_string(),
        assets: names.iter().map(|n| asset(n)).collect(),
    }
}

fn recent(path: &str, ts: u64, pinned: bool) -> RecentEntry {
    RecentEntry { path: path.to_string(), ts, pinned }
}

fn paths(items: &[RecentEntry]) -> Vec<&str> {
    items.iter().map(|e| e.path.as_str()).collect()
}

#[test]
fn tags_lose_exactly_one_v() {
    assert_eq!(version_from_tag("v1.2.3"), "1.2.3");
    assert_eq!(version_from_tag("vv1.0"), "v1.0");
    assert_eq!(version_from_tag("1.0"), "1.0");
    let r = release_from_parts("v0.14.6".to_string(), vec![asset("a")]);
    assert_eq!((r.tag.as_str(), r.version.as_str(), r.assets.len()), ("v0.14.6", "0.14.6", 1));
    assert_eq!(latest_release_url("Anon5T4R/LocalOffice"), "https://api.github.com/repos/Anon5T4R/LocalOffice/releases/latest");
    assert_eq!(status_hint(403), " (provável rate limit da API — espere ~1h ou tente de novo mais tarde)");
    assert_eq!(status_hint(429), status_hint(403));
    assert_eq!(status_hint(404), "");
}

#[test]
fn the_cache_answers_while_fresh_and_a_stale_one_beats_an_error() {
    let c = CachedRelease { fetched_at: 1000, release: release("v1", &[]) };
    assert!(serve_from_cache(&Some(c.clone()), false, 1000 + 1799));
    assert!(!serve_from_cache(&Some(c.clone()), false, 1000 + 1800));
    assert!(!serve_from_cache(&Some(c.clone()), true, 1000));
    assert!(!serve_from_cache(&None, false, 1000));
    let fresh = settle_fetch(Ok(release("v2", &[])), Some(c.clone())).unwrap();
    assert_eq!(fresh.tag, "v2");
    let old = settle_fetch(Err("403".to_string()), Some(c)).unwrap();
    assert_eq!(old.tag, "v1");
    assert_eq!(settle_fetch(Err("403".to_string()), None).err().unwrap(), "403");
}

#[test]
fn assets_are_picked_by_the_first_matching_glob() {
    let assets = vec![asset("A_1.0_amd64.AppImage"), asset("a-1.0-1-x86_64.pkg.tar.zst"), asset("A.pkg.tar.zst")];
    assert_eq!(first_asset_for(&assets, "*.PKG.TAR.ZST"), Some(1));
    assert_eq!(first_asset_for(&assets, "*.deb"), None);
    let globs = vec!["*.deb".to_string(), "*.pkg.tar.zst".to_string(), "*.AppImage".to_string()];
    assert_eq!(select_asset(&assets, &globs), Some((1, 1)));
    assert_eq!(select_asset(&assets, &["*.exe".to_string()]), None);
    assert_eq!(select_asset(&assets, &[]), None);
}

#[test]
fn icons_are_served_as_data_addresses() {
    assert_eq!(icon_data_url(&[1, 2, 3]), "data:image/png;base64,AQID");
    assert_eq!(icon_data_url(&[]), "data:image/png;base64,");
    assert_eq!(icon_file_name("local-office"), Some("local-office.png".to_string()));
    assert_eq!(icon_file_name("../etc/pass wd"), Some("etcpasswd.png".to_string()));
    assert_eq!(icon_file_name("../"), None);
    assert_eq!(cached_icon(&Some(vec![0xff]), false), Some("data:image/png;base64,/w==".to_string()));
    assert_eq!(cached_icon(&Some(vec![0xff]), true), None);
    assert_eq!(cached_icon(&None, false), None);
    assert_eq!(settle_icon(Ok(vec![1, 2, 3]), Some(vec![9])), Ok("data:image/png;base64,AQID".to_string()));
    assert_eq!(settle_icon(Err("offline".to_string()), Some(vec![1, 2, 3])), Ok("data:image/png;base64,AQID".to_string()));
    assert_eq!(settle_icon(Err("offline".to_string()), None), Err("offline".to_string()));
}

#[test]
fn user_repositories_get_a_slug_id_and_a_short_name() {
    let c = new_custom_app("Anon5T4R/Local.ZIM".to_string(), "*.exe".to_string(), String::new());
    assert_eq!(c.id, "custom-anon5t4r-local-zim");
    assert_eq!(c.name, "Local.ZIM");
    assert!(c.exe.is_empty());
    let list = vec![c.clone()];
    assert!(repo_listed(&list, "anon5t4r/local.zim"));
    assert!(!repo_listed(&list, "anon5t4r/other"));
    assert!(without_custom(list.clone(), "custom-anon5t4r-local-zim").is_empty());
    assert_eq!(without_custom(list, "custom-x").len(), 1);
}

#[test]
fn a_release_without_installers_is_refused() {
    let err = custom_app_from_release("o/r".to_string(), &release("v1.0", &["src.zip"])).err().unwrap();
    assert_eq!(err, "A release v1.0 de o/r não tem instalador .exe nem AppImage nos assets");
    let ok: CustomApp = custom_app_from_release("o/r".to_string(), &release("v1.0", &["r_1.0_x86_64.AppImage"])).unwrap();
    assert_eq!((ok.win_asset.as_str(), ok.linux_asset.as_str()), ("", "*x86_64.appimage"));
    assert_eq!(parse_repo("  https://github.com/o/r.git.git  ").as_deref(), Some("o/r"));
}

#[test]
fn a_parsed_repository_parses_back_to_itself() {
    for input in ["Anon5T4R/LocalZIM", "www.www.x/y", "github.com/github.com/y", "http://o/r.git/"] {
        let r = parse_repo(input).unwrap();
        assert_eq!(parse_repo(&format!("https://github.com/{}", r)), Some(r.clone()), "{input}");
        assert_eq!(parse_repo(&format!("github.com/{}.git", r)), Some(r.clone()), "{input}");
    }
}

#[test]
fn an_opened_file_goes_on_top_once_and_keeps_its_pin() {
    let items = vec![recent("/a", 1, false), recent("/b", 2, true), recent("/a", 3, false)];
    let r = record_recent(items, "/b", 10);
    assert_eq!(paths(&r), vec!["/b", "/a", "/a"]);
    assert!(r[0].pinned);
    assert_eq!(r[0].ts, 10);
    let r = record_recent(r, "/c", 11);
    assert_eq!(paths(&r), vec!["/c", "/b", "/a", "/a"]);
    assert!(!r[0].pinned);
}

#[test]
fn unpinned_recents_are_capped_and_pinned_ones_stay() {
    let mut items: Vec<RecentEntry> = (0..45).map(|i| recent(&format!("/f{i}"), i, false)).collect();
    items.push(recent("/pinned", 0, true));
    let r = record_recent(items, "/new", 100);
    assert_eq!(r.iter().filter(|e| !e.pinned).count() as u64, MAX_UNPINNED);
    assert_eq!(r.len(), 41);
    assert!(r.iter().any(|e| e.path == "/pinned"));
    assert_eq!(r[0].path, "/new");
    assert_eq!(r[39].path, "/f38");
}

#[test]
fn pins_removals_and_clearing() {
    let items = vec![recent("/a", 1, false), recent("/b", 2, false), recent("/a", 3, false)];
    let r = pin_recent(items.clone(), "/a", true);
    assert_eq!(r.iter().map(|e| e.pinned).collect::<Vec<_>>(), vec![true, false, true]);
    assert_eq!(paths(&drop_recent(items.clone(), "/a")), vec!["/b"]);
    assert!(keep_pinned(items).is_empty());
    assert_eq!(paths(&keep_pinned(r)), vec!["/a", "/a"]);
}

#[test]
fn glob_stars_match_any_run_of_characters() {
    assert!(glob_match("*a", "aa"));
    assert!(glob_match("*", ""));
    assert!(glob_match("*", "anything"));
    assert!(glob_match("a*b*c", "aXbYbZc"));
    assert!(glob_match("ABC", "abc"));
    assert!(!glob_match("abc", "abcd"));
    // An empty pattern asks for nothing and takes every name.
    assert!(glob_match("", "abc"));
    assert!(glob_match("", ""));
}

#[test]
fn a_version_needs_two_numeric_groups() {
    assert_eq!(version_from_filename("App_2_x64.exe"), None);
    assert_eq!(version_from_filename("App-.1.2..AppImage").as_deref(), Some("1.2"));
    assert_eq!(version_from_filename("v10.20-rc1"), Some("10.20".to_string()));
    assert_eq!(version_from_filename("1..2"), None);
}
