use taylorhub::cleanup::{check_leftover_path, path_is_within_bases, tally_files};
use taylorhub::desktop::{
    custom_mime_package, desktop_entry_text, dispatcher_desktop_text, entry_mimes,
    ext_key_is_ours, menu_entry_file, menu_icon_file, progid_for, progid_keys,
};
use taylorhub::dispatch::AssocEntry;

fn route(ext: &str, name: &str) -> AssocEntry {
    AssocEntry {
        ext: ext.to_string(),
        app_id: name.to_lowercase(),
        app_name: name.to_string(),
        exe: format!("/opt/{name}/{name}"),
    }
}

#[test]
fn menu_entry_text_with_and_without_icon() {
    assert_eq!(
        desktop_entry_text("LocalOffice", "/home/u/Applications/LocalOffice.AppImage", None),
        "[Desktop Entry]\nType=Application\nName=LocalOffice\nExec=\"/home/u/Applications/LocalOffice.AppImage\" %f\nTerminal=false\nCategories=Office;\n"
    );
    assert_eq!(
        desktop_entry_text("A", "/x/a", Some("/h/.local/share/icons/taylor-a.png".to_string())),
        "[Desktop Entry]\nType=Application\nName=A\nExec=\"/x/a\" %f\nIcon=/h/.local/share/icons/taylor-a.png\nTerminal=false\nCategories=Office;\n"
    );
}

#[test]
fn menu_files_live_under_the_home() {
    assert_eq!(
        menu_entry_file("/home/u", "local-office"),
        "/home/u/.local/share/applications/taylor-local-office.desktop"
    );
    assert_eq!(menu_icon_file("/home/u", "local-office"), "/home/u/.local/share/icons/taylor-local-office.png");
}

#[test]
fn only_unknown_extensions_get_a_mime_package() {
    assert_eq!(custom_mime_package(&[route("md", "Writer"), route("csv", "Sheets")]), None);
    assert_eq!(custom_mime_package(&[]), None);
    let xml = custom_mime_package(&[route("md", "Writer"), route("tslides", "Slides")]).unwrap();
    assert_eq!(
        xml,
        "<?xml version=\"1.0\" encoding=\"UTF-8\"?>\n<mime-info xmlns=\"http://www.freedesktop.org/standards/shared-mime-info\">\n  <mime-type type=\"application/x-taylor-tslides\">\n    <comment>Slides (tslides)</comment>\n    <glob pattern=\"*.tslides\"/>\n  </mime-type>\n</mime-info>\n"
    );
}

#[test]
fn dispatcher_entry_lists_every_mime() {
    let mimes = entry_mimes(&[route("md", "Writer"), route("tmind", "Mind")]);
    assert_eq!(mimes, vec!["text/markdown".to_string(), "application/x-taylor-tmind".to_string()]);
    assert_eq!(
        dispatcher_desktop_text("/opt/hub/TaylorHub.AppImage", &mimes),
        "[Desktop Entry]\nType=Application\nName=TaylorHub (abrir arquivo)\nExec=\"/opt/hub/TaylorHub.AppImage\" --open %f\nNoDisplay=true\nTerminal=false\nMimeType=text/markdown;application/x-taylor-tmind;\n"
    );
    assert_eq!(
        dispatcher_desktop_text("hub", &Vec::new()),
        "[Desktop Entry]\nType=Application\nName=TaylorHub (abrir arquivo)\nExec=\"hub\" --open %f\nNoDisplay=true\nTerminal=false\nMimeType=;\n"
    );
}

#[test]
fn progid_values_point_at_the_hub() {
    let e = AssocEntry {
        ext: "tdraw".to_string(),
        app_id: "draw".to_string(),
        app_name: "LocalDraw".to_string(),
        exe: "C:\\Apps\\LocalDraw.exe".to_string(),
    };
    let k = progid_keys(&e, "C:\\Hub\\TaylorHub.exe");
    assert_eq!(k.progid, "Taylor.tdraw");
    assert_eq!(k.description, "LocalDraw (tdraw)");
    assert_eq!(k.icon, "C:\\Apps\\LocalDraw.exe,0");
    assert_eq!(k.command, "\"C:\\Hub\\TaylorHub.exe\" --open \"%1\"");
    assert_eq!(k.ext_key, ".tdraw");
    assert_eq!(progid_for("md"), "Taylor.md");
}

#[test]
fn extension_key_is_deleted_only_while_ours() {
    assert!(ext_key_is_ours("Taylor.md", "md"));
    assert!(!ext_key_is_ours("Word.Document.12", "md"));
    assert!(!ext_key_is_ours("", "md"));
}

#[test]
fn cache_tally_counts_only_files() {
    let c = tally_files(&[(true, 10), (false, 4096), (true, 32)]);
    assert_eq!((c.count, c.bytes), (2, 42));
    let c = tally_files(&[]);
    assert_eq!((c.count, c.bytes), (0, 0));
}

#[test]
fn leftover_deletion_is_refused_outside_the_bases() {
    let bases = vec!["/home/u/.local/share".to_string(), String::new()];
    assert_eq!(check_leftover_path("/home/u/.local/share/LocalCode", &bases), Ok(()));
    assert_eq!(
        check_leftover_path("/etc/passwd", &bases),
        Err("Caminho fora do AppData do usuário, recusado: /etc/passwd".to_string())
    );
    // An empty base holds nothing, not everything.
    assert!(!path_is_within_bases("/anything", &[String::new()]));
}

#[test]
fn a_base_is_never_inside_itself_whatever_the_case() {
    let bases = vec!["C:\\Users\\U\\AppData\\Roaming".to_string()];
    assert!(!path_is_within_bases("c:\\users\\u\\appdata\\roaming", &bases));
    assert_eq!(
        path_is_within_bases("C:\\USERS\\U\\APPDATA\\ROAMING\\X", &bases),
        path_is_within_bases("c:\\users\\u\\appdata\\roaming\\x", &bases)
    );
    assert!(path_is_within_bases("C:\\USERS\\U\\APPDATA\\ROAMING\\X", &bases));
}

#[test]
fn a_base_with_trailing_separators_is_still_the_base() {
    let bases = vec![r"C:\Users\Hades\AppData\Local".to_string()];
    assert!(!path_is_within_bases(r"C:\Users\Hades\AppData\Local\", &bases));
    assert!(!path_is_within_bases(r"C:\Users\Hades\AppData\Local\\/", &bases));
    assert!(path_is_within_bases(r"C:\Users\Hades\AppData\Local\\x", &bases));
    let bases = vec![r"C:\Users\Hades\AppData\Local\".to_string()];
    assert!(!path_is_within_bases(r"C:\Users\Hades\AppData\Local\", &bases));
    assert!(path_is_within_bases(r"C:\Users\Hades\AppData\Local\LocalCode", &bases));
}

#[test]
fn a_path_that_climbs_out_of_the_base_is_refused() {
    let bases = vec![r"C:\Users\Hades\AppData\Local".to_string()];
    assert!(!path_is_within_bases(r"C:\Users\Hades\AppData\Local\..\..\..\..\Windows\System32", &bases));
    assert!(!path_is_within_bases(r"C:\Users\Hades\AppData\Local\LocalCode\..\..\Roaming", &bases));
    assert!(!path_is_within_bases(r"C:\Users\Hades\AppData\Local\.", &bases));
    assert!(!path_is_within_bases(r"C:\Users\Hades\AppData\Local/./x", &bases));
    assert!(check_leftover_path(r"C:\Users\Hades\AppData\Local\..\..", &bases).is_err());
    // Dots inside a name are no component of their own.
    assert!(path_is_within_bases(r"C:\Users\Hades\AppData\Local\.cache", &bases));
    assert!(path_is_within_bases(r"C:\Users\Hades\AppData\Local\app..old\x", &bases));
    // A sibling whose name starts with the base's is not inside it.
    assert!(!path_is_within_bases(r"C:\Users\Hades\AppData\LocalLow\x", &bases));
}
