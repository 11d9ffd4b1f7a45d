//! What the Hub writes for the desktop: Linux menu entries and MIME
//! packages, and the registry values of a Windows file association.
use crate::dispatch::{known_mime, known_mime_of, mime_of, mime_type_for, AssocEntry};
use crate::paths::{joined_path, path_join};
use crate::text::{join_texts, joined_with};
use vstd::prelude::*;
use vstd::string::*;

verus! {

/// The `Icon=` line of a menu entry, when there is an icon.
pub open spec fn icon_line(icon: Option<Seq<char>>) -> Seq<char> {
    match icon {
        Some(p) => "Icon="@ + p + "\n"@,
        None => Seq::empty(),
    }
}

/// The menu entry of an installed app: opens `exec` with the chosen file.
pub open spec fn desktop_entry(name: Seq<char>, exec: Seq<char>, icon: Option<Seq<char>>) -> Seq<
    char,
> {
    "[Desktop Entry]\nType=Application\nName="@ + name + "\nExec=\""@ + exec + "\" %f\n"@
        + icon_line(icon) + "Terminal=false\nCategories=Office;\n"@
}

pub open spec fn opt_view(o: Option<String>) -> Option<Seq<char>> {
    match o {
        Some(s) => Some(s@),
        None => None,
    }
}

/// The text of an app's menu entry; `icon` is the path of its icon, when
/// that file exists.
pub fn desktop_entry_text(name: &str, exec: &str, icon: Option<String>) -> (t: String)
    ensures
        t@ == desktop_entry(name@, exec@, opt_view(icon)),
{
    let mut t = String::from_str("[Desktop Entry]\nType=Application\nName=");
    t.append(name);
    t.append("\nExec=\"");
    t.append(exec);
    t.append("\" %f\n");
    match icon {
        Some(p) => {
            t.append("Icon=");
            t.append(p.as_str());
            t.append("\n");
        },
        None => {},
    }
    t.append("Terminal=false\nCategories=Office;\n");
    t
}

/// The file of an app's menu entry, under the user's home.
pub open spec fn menu_entry_path(home: Seq<char>, id: Seq<char>) -> Seq<char> {
    joined_path(joined_path(home, ".local/share/applications"@), "taylor-"@ + id + ".desktop"@)
}

pub fn menu_entry_file(home: &str, id: &str) -> (p: String)
    ensures
        p@ == menu_entry_path(home@, id@),
{
    let dir = path_join(home, ".local/share/applications");
    let mut f = String::from_str("taylor-");
    f.append(id);
    f.append(".desktop");
    path_join(dir.as_str(), f.as_str())
}

/// The file of an app's menu icon, under the user's home.
pub open spec fn menu_icon_path(home: Seq<char>, id: Seq<char>) -> Seq<char> {
    joined_path(home, ".local/share/icons/taylor-"@ + id + ".png"@)
}

pub fn menu_icon_file(home: &str, id: &str) -> (p: String)
    ensures
        p@ == menu_icon_path(home@, id@),
{
    let mut f = String::from_str(".local/share/icons/taylor-");
    f.append(id);
    f.append(".png");
    path_join(home, f.as_str())
}

/// The declaration of one of the suite's own file types.
pub open spec fn mime_block(ext: Seq<char>, name: Seq<char>) -> Seq<char> {
    "  <mime-type type=\"application/x-taylor-"@ + ext + "\">\n    <comment>"@ + name + " ("@ + ext
        + ")</comment>\n    <glob pattern=\"*."@ + ext + "\"/>\n  </mime-type>\n"@
}

/// The declarations of the routes whose extension the desktop does not
/// know, in order.
pub open spec fn mime_blocks(entries: Seq<AssocEntry>) -> Seq<char>
    decreases entries.len(),
{
    if entries.len() == 0 {
        Seq::empty()
    } else {
        let e = entries.last();
        if known_mime_of(e.ext@) is Some {
            mime_blocks(entries.drop_last())
        } else {
            mime_blocks(entries.drop_last()) + mime_block(e.ext@, e.app_name@)
        }
    }
}

/// Some route has an extension the desktop does not know.
pub open spec fn has_custom_type(entries: Seq<AssocEntry>) -> bool {
    exists|i: int| 0 <= i < entries.len() && known_mime_of(#[trigger] entries[i].ext@) is None
}

pub open spec fn mime_xml_header() -> Seq<char> {
    "<?xml version=\"1.0\" encoding=\"UTF-8\"?>\n<mime-info xmlns=\"http://www.freedesktop.org/standards/shared-mime-info\">\n"@
}

/// The shared-mime-info package that declares the suite's own file types;
/// none when every route has a type the desktop knows.
pub fn custom_mime_package(entries: &[AssocEntry]) -> (r: Option<String>)
    ensures
        !has_custom_type(entries@) ==> r is None,
        has_custom_type(entries@) ==> (r matches Some(x) && x@ == mime_xml_header() + mime_blocks(
            entries@,
        ) + "</mime-info>\n"@),
{
    let mut xml = String::from_str(
        "<?xml version=\"1.0\" encoding=\"UTF-8\"?>\n<mime-info xmlns=\"http://www.freedesktop.org/standards/shared-mime-info\">\n",
    );
    let mut any = false;
    let mut i: usize = 0;
    while i < entries.len()
        invariant
            i <= entries.len(),
            xml@ == mime_xml_header() + mime_blocks(entries@.take(i as int)),
            any == exists|j: int| 0 <= j < i && known_mime_of(#[trigger] entries@[j].ext@) is None,
        decreases entries.len() - i,
    {
        let e = &entries[i];
        assert(entries@.take(i + 1).drop_last() == entries@.take(i as int));
        assert(entries@.take(i + 1).last() == entries@[i as int]);
        match known_mime(e.ext.as_str()) {
            Some(_) => {},
            None => {
                xml.append("  <mime-type type=\"application/x-taylor-");
                xml.append(e.ext.as_str());
                xml.append("\">\n    <comment>");
                xml.append(e.app_name.as_str());
                xml.append(" (");
                xml.append(e.ext.as_str());
                xml.append(")</comment>\n    <glob pattern=\"*.");
                xml.append(e.ext.as_str());
                xml.append("\"/>\n  </mime-type>\n");
                any = true;
            },
        }
        i += 1;
    }
    assert(entries@.take(entries.len() as int) == entries@);
    if !any {
        return None;
    }
    xml.append("</mime-info>\n");
    Some(xml)
}

/// The MIME types of the routes, in order.
pub open spec fn route_mimes(entries: Seq<AssocEntry>) -> Seq<Seq<char>> {
    entries.map_values(|e: AssocEntry| mime_of(e.ext@))
}

pub fn entry_mimes(entries: &[AssocEntry]) -> (r: Vec<String>)
    ensures
        r.deep_view() == route_mimes(entries@),
{
    let ghost want = route_mimes(entries@);
    let mut r: Vec<String> = Vec::new();
    let mut i: usize = 0;
    while i < entries.len()
        invariant
            i <= entries.len(),
            want == route_mimes(entries@),
            r.deep_view() == want.take(i as int),
        decreases entries.len() - i,
    {
        let m = mime_type_for(entries[i].ext.as_str());
        let ghost prev = r.deep_view();
        r.push(m);
        assert(r.deep_view() =~= prev.push(want[i as int]));
        assert(want.take(i + 1) =~= want.take(i as int).push(want[i as int]));
        i += 1;
    }
    assert(want.take(entries.len() as int) == want);
    r
}

/// The hidden menu entry through which the Hub opens every routed file.
pub open spec fn dispatcher_entry(hub: Seq<char>, mimes: Seq<Seq<char>>) -> Seq<char> {
    "[Desktop Entry]\nType=Application\nName=TaylorHub (abrir arquivo)\nExec=\""@ + hub
        + "\" --open %f\nNoDisplay=true\nTerminal=false\nMimeType="@ + joined_with(mimes, ";"@)
        + ";\n"@
}

pub fn dispatcher_desktop_text(hub: &str, mimes: &Vec<String>) -> (t: String)
    ensures
        t@ == dispatcher_entry(hub@, mimes.deep_view()),
{
    let list = join_texts(mimes, ";");
    let mut t = String::from_str(
        "[Desktop Entry]\nType=Application\nName=TaylorHub (abrir arquivo)\nExec=\"",
    );
    t.append(hub);
    t.append("\" --open %f\nNoDisplay=true\nTerminal=false\nMimeType=");
    t.append(list.as_str());
    t.append(";\n");
    t
}

/// The registry values that make Windows open a route's files through the
/// Hub, all under `Software\Classes` of the current user.
#[derive(Clone, Debug)]
pub struct ProgIdKeys {
    /// The ProgID's key: `Taylor.<ext>`.
    pub progid: String,
    /// Its default value: `<app name> (<ext>)`.
    pub description: String,
    /// `DefaultIcon`: the app's executable, icon 0.
    pub icon: String,
    /// `shell\open\command`: the Hub, told to open the file.
    pub command: String,
    /// The extension's key, whose default value is the ProgID.
    pub ext_key: String,
}

/// The ProgID the Hub registers for an extension.
pub open spec fn progid_of(ext: Seq<char>) -> Seq<char> {
    "Taylor."@ + ext
}

pub fn progid_for(ext: &str) -> (p: String)
    ensures
        p@ == progid_of(ext@),
{
    let mut p = String::from_str("Taylor.");
    p.append(ext);
    p
}

pub fn progid_keys(entry: &AssocEntry, hub: &str) -> (k: ProgIdKeys)
    ensures
        k.progid@ == progid_of(entry.ext@),
        k.description@ == entry.app_name@ + " ("@ + entry.ext@ + ")"@,
        k.icon@ == entry.exe@ + ",0"@,
        k.command@ == "\""@ + hub@ + "\" --open \"%1\""@,
        k.ext_key@ == "."@ + entry.ext@,
{
    let progid = progid_for(entry.ext.as_str());
    let mut description = entry.app_name.clone();
    description.append(" (");
    description.append(entry.ext.as_str());
    description.append(")");
    let mut icon = entry.exe.clone();
    icon.append(",0");
    let mut command = String::from_str("\"");
    command.append(hub);
    command.append("\" --open \"%1\"");
    let mut ext_key = String::from_str(".");
    ext_key.append(entry.ext.as_str());
    ProgIdKeys { progid, description, icon, command, ext_key }
}

/// An extension's key is the Hub's to delete only while it still points at
/// the Hub's ProgID: a choice the user made elsewhere is left alone.
pub fn ext_key_is_ours(current: &str, ext: &str) -> (b: bool)
    ensures
        b == (current@ == progid_of(ext@)),
{
    let p = progid_for(ext);
    crate::text::same_text(current, p.as_str())
}

} // verus!
