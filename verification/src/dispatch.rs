//! File associations: which app opens which extension, routes whose app is
//! gone, and the MIME types the Linux desktop is told about.
use crate::glob::{lowercased, to_lower};
use crate::lists::{select, split_by_flags};
use crate::paths::{extension_of, path_extension};
use crate::registry::answered;
use crate::text::same_text;
use vstd::prelude::*;
use vstd::string::*;

verus! {

/// One route: files with extension `ext` open in the app `app_id`.
#[derive(Clone, Debug)]
pub struct AssocEntry {
    pub ext: String,
    pub app_id: String,
    pub app_name: String,
    pub exe: String,
}

/// `flags` holds, for each entry, one answer the predicate gave for it.
pub open spec fn answers_for<F: Fn(&AssocEntry) -> bool>(
    pred: F,
    entries: Seq<AssocEntry>,
    flags: Seq<bool>,
) -> bool {
    &&& flags.len() == entries.len()
    &&& forall|i: int| 0 <= i < entries.len() ==> #[trigger] call_ensures(pred, (&entries[i],), flags[i])
}

/// Splits the routes into `(kept, removed)`: removed are those the
/// predicate answers `true` for, each side in the original order.
pub fn partition_dispatch<F: Fn(&AssocEntry) -> bool>(entries: Vec<AssocEntry>, drop_if: F) -> (r: (
    Vec<AssocEntry>,
    Vec<AssocEntry>,
))
    requires
        forall|e: &AssocEntry| call_requires(drop_if, (e,)),
    ensures
        exists|flags: Seq<bool>|
            answers_for(drop_if, entries@, flags) && r.0@ == select(entries@, flags, false) && r.1@
                == select(entries@, flags, true),
{
    let mut flags: Vec<bool> = Vec::new();
    let mut i: usize = 0;
    while i < entries.len()
        invariant
            i <= entries.len(),
            flags@.len() == i,
            forall|e: &AssocEntry| call_requires(drop_if, (e,)),
            forall|j: int| 0 <= j < i ==> #[trigger] call_ensures(drop_if, (&entries@[j],), flags@[j]),
        decreases entries.len() - i,
    {
        let b = drop_if(&entries[i]);
        flags.push(b);
        i += 1;
    }
    let ghost fl = flags@;
    let ghost es = entries@;
    let r = split_by_flags(entries, &flags);
    assert(answers_for(drop_if, es, fl));
    r
}

/// `flags` marks the orphan routes: an empty executable, or one the probe
/// answered is not on disk.
pub open spec fn orphan_flags<F: Fn(&String) -> bool>(
    file_exists: F,
    entries: Seq<AssocEntry>,
    flags: Seq<bool>,
) -> bool {
    &&& flags.len() == entries.len()
    &&& forall|i: int|
        0 <= i < entries.len() ==> (if (#[trigger] entries[i]).exe@.len() == 0 {
            flags[i]
        } else {
            call_ensures(file_exists, (&entries[i].exe,), !flags[i])
        })
}

/// Splits the routes into `(kept, orphans)`: an orphan is a route whose
/// app is no longer where the route says (empty path, or not on disk).
pub fn orphan_routes<F: Fn(&String) -> bool>(entries: Vec<AssocEntry>, file_exists: F) -> (r: (
    Vec<AssocEntry>,
    Vec<AssocEntry>,
))
    requires
        forall|s: &String| call_requires(file_exists, (s,)),
    ensures
        exists|flags: Seq<bool>|
            orphan_flags(file_exists, entries@, flags) && r.0@ == select(entries@, flags, false)
                && r.1@ == select(entries@, flags, true),
{
    let mut flags: Vec<bool> = Vec::new();
    let mut i: usize = 0;
    while i < entries.len()
        invariant
            i <= entries.len(),
            flags@.len() == i,
            forall|s: &String| call_requires(file_exists, (s,)),
            forall|j: int|
                0 <= j < i ==> (if (#[trigger] entries@[j]).exe@.len() == 0 {
                    flags@[j]
                } else {
                    call_ensures(file_exists, (&entries@[j].exe,), !flags@[j])
                }),
        decreases entries.len() - i,
    {
        let e = &entries[i];
        if e.exe.as_str().unicode_len() == 0 {
            flags.push(true);
        } else {
            let here = file_exists(&e.exe);
            flags.push(!here);
        }
        i += 1;
    }
    let ghost fl = flags@;
    let ghost es = entries@;
    let r = split_by_flags(entries, &flags);
    assert(orphan_flags(file_exists, es, fl));
    r
}

/// The MIME types the Linux desktop already knows, by extension.
pub open spec fn known_mime_of(ext: Seq<char>) -> Option<Seq<char>> {
    if ext == "md"@ || ext == "markdown"@ {
        Some("text/markdown"@)
    } else if ext == "txt"@ {
        Some("text/plain"@)
    } else if ext == "html"@ || ext == "htm"@ {
        Some("text/html"@)
    } else if ext == "rtf"@ {
        Some("application/rtf"@)
    } else if ext == "docx"@ {
        Some("application/vnd.openxmlformats-officedocument.wordprocessingml.document"@)
    } else if ext == "odt"@ {
        Some("application/vnd.oasis.opendocument.text"@)
    } else if ext == "xlsx"@ {
        Some("application/vnd.openxmlformats-officedocument.spreadsheetml.sheet"@)
    } else if ext == "csv"@ {
        Some("text/csv"@)
    } else if ext == "pptx"@ {
        Some("application/vnd.openxmlformats-officedocument.presentationml.presentation"@)
    } else if ext == "json"@ {
        Some("application/json"@)
    } else if ext == "js"@ {
        Some("text/javascript"@)
    } else if ext == "css"@ {
        Some("text/css"@)
    } else if ext == "yaml"@ || ext == "yml"@ {
        Some("application/yaml"@)
    } else if ext == "toml"@ {
        Some("application/toml"@)
    } else {
        None
    }
}

pub fn known_mime(ext: &str) -> (r: Option<&'static str>)
    ensures
        match r {
            Some(m) => known_mime_of(ext@) == Some(m@),
            None => known_mime_of(ext@) is None,
        },
{
    if same_text(ext, "md") || same_text(ext, "markdown") {
        Some("text/markdown")
    } else if same_text(ext, "txt") {
        Some("text/plain")
    } else if same_text(ext, "html") || same_text(ext, "htm") {
        Some("text/html")
    } else if same_text(ext, "rtf") {
        Some("application/rtf")
    } else if same_text(ext, "docx") {
        Some("application/vnd.openxmlformats-officedocument.wordprocessingml.document")
    } else if same_text(ext, "odt") {
        Some("application/vnd.oasis.opendocument.text")
    } else if same_text(ext, "xlsx") {
        Some("application/vnd.openxmlformats-officedocument.spreadsheetml.sheet")
    } else if same_text(ext, "csv") {
        Some("text/csv")
    } else if same_text(ext, "pptx") {
        Some("application/vnd.openxmlformats-officedocument.presentationml.presentation")
    } else if same_text(ext, "json") {
        Some("application/json")
    } else if same_text(ext, "js") {
        Some("text/javascript")
    } else if same_text(ext, "css") {
        Some("text/css")
    } else if same_text(ext, "yaml") || same_text(ext, "yml") {
        Some("application/yaml")
    } else if same_text(ext, "toml") {
        Some("application/toml")
    } else {
        None
    }
}

/// The MIME type a route is announced under: the known one, or
/// `application/x-taylor-<ext>` for the suite's own formats.
pub open spec fn mime_of(ext: Seq<char>) -> Seq<char> {
    match known_mime_of(ext) {
        Some(m) => m,
        None => "application/x-taylor-"@ + ext,
    }
}

pub fn mime_type_for(ext: &str) -> (m: String)
    ensures
        m@ == mime_of(ext@),
{
    match known_mime(ext) {
        Some(m) => String::from_str(m),
        None => {
            let mut s = String::from_str("application/x-taylor-");
            s.append(ext);
            s
        },
    }
}

/// The extensions of the routes, in order.
pub open spec fn exts_of(entries: Seq<AssocEntry>) -> Seq<Seq<char>> {
    entries.map_values(|e: AssocEntry| e.ext@)
}

/// The extensions of `old` (in order, repeats kept) that no route of `new`
/// has: their registry entries have to go.
pub open spec fn dropped_exts(old: Seq<Seq<char>>, new: Seq<Seq<char>>) -> Seq<Seq<char>>
    decreases old.len(),
{
    if old.len() == 0 {
        Seq::empty()
    } else {
        let rest = dropped_exts(old.drop_last(), new);
        if new.contains(old.last()) {
            rest
        } else {
            rest.push(old.last())
        }
    }
}

fn has_ext(entries: &[AssocEntry], ext: &String) -> (b: bool)
    ensures
        b == exts_of(entries@).contains(ext@),
{
    let ghost xs = exts_of(entries@);
    let mut i: usize = 0;
    while i < entries.len()
        invariant
            i <= entries.len(),
            xs == exts_of(entries@),
            forall|j: int| 0 <= j < i ==> #[trigger] xs[j] != ext@,
        decreases entries.len() - i,
    {
        assert(xs[i as int] == entries@[i as int].ext@);
        if entries[i].ext == *ext {
            return true;
        }
        i += 1;
    }
    false
}

pub fn dropped_extensions(old: &[AssocEntry], new: &[AssocEntry]) -> (r: Vec<String>)
    ensures
        r.deep_view() == dropped_exts(exts_of(old@), exts_of(new@)),
{
    let ghost ov = exts_of(old@);
    let ghost nv = exts_of(new@);
    let mut r: Vec<String> = Vec::new();
    let mut i: usize = 0;
    while i < old.len()
        invariant
            i <= old.len(),
            ov == exts_of(old@),
            nv == exts_of(new@),
            r.deep_view() == dropped_exts(ov.take(i as int), nv),
        decreases old.len() - i,
    {
        assert(ov.take(i + 1).drop_last() == ov.take(i as int));
        assert(ov.take(i + 1).last() == old@[i as int].ext@);
        if !has_ext(new, &old[i].ext) {
            let e = old[i].ext.clone();
            let ghost prev = r.deep_view();
            r.push(e);
            assert(r.deep_view() =~= prev.push(old@[i as int].ext@));
        }
        i += 1;
    }
    assert(ov.take(old.len() as int) == ov);
    r
}

/// The extension a file is routed by: the extension of its path,
/// lowercased; empty when it has none.
pub open spec fn route_key(file: Seq<char>) -> Seq<char> {
    match extension_of(file) {
        Some(x) => lowercased(x),
        None => Seq::empty(),
    }
}

/// The route that opens `file`: the first one whose extension is the file's
/// (lowercased); none for a file without extension.
pub fn route_for_file(file: &str, entries: &[AssocEntry]) -> (r: Option<usize>)
    ensures
        match r {
            Some(i) => {
                &&& route_key(file@).len() > 0
                &&& i < entries.len()
                &&& entries@[i as int].ext@ == route_key(file@)
                &&& forall|j: int| 0 <= j < i ==> (#[trigger] entries@[j]).ext@ != route_key(file@)
            },
            None => route_key(file@).len() == 0 || forall|j: int|
                0 <= j < entries.len() ==> (#[trigger] entries@[j]).ext@ != route_key(file@),
        },
{
    let key = match path_extension(file) {
        Some(x) => to_lower(x.as_str()),
        None => String::new(),
    };
    if key.as_str().unicode_len() == 0 {
        return None;
    }
    let mut i: usize = 0;
    while i < entries.len()
        invariant
            i <= entries.len(),
            key@ == route_key(file@),
            key@.len() > 0,
            forall|j: int| 0 <= j < i ==> (#[trigger] entries@[j]).ext@ != key@,
        decreases entries.len() - i,
    {
        if entries[i].ext == key {
            return Some(i);
        }
        i += 1;
    }
    None
}

/// The file of the `--open <file>` mode, when the arguments ask for it.
pub fn open_target(args: &[String]) -> (r: Option<String>)
    ensures
        match r {
            Some(f) => args.len() >= 3 && args@[1]@ == "--open"@ && f@ == args@[2]@,
            None => !(args.len() >= 3 && args@[1]@ == "--open"@),
        },
{
    if args.len() >= 3 && same_text(args[1].as_str(), "--open") {
        Some(args[2].clone())
    } else {
        None
    }
}

/// The executable a file is handed to in the `--open` mode: that of the
/// route for the file (`route_for_file`), when it is named and exists; none
/// otherwise, and the Hub then opens normally.
pub fn dispatch_target<F: Fn(&String) -> bool>(file: &str, entries: &[AssocEntry], file_exists: F) -> (r:
    Option<String>)
    requires
        forall|s: &String| call_requires(file_exists, (s,)),
    ensures
        ({
            let key = route_key(file@);
            match r {
                Some(exe) => key.len() > 0 && exists|i: int|
                    0 <= i < entries.len() && (#[trigger] entries@[i]).ext@ == key && (forall|j: int|
                        0 <= j < i ==> (#[trigger] entries@[j]).ext@ != key) && exe@
                        == entries@[i].exe@ && exe@.len() > 0 && answered(file_exists, exe@, true),
                None => key.len() == 0 || (forall|j: int|
                    0 <= j < entries.len() ==> (#[trigger] entries@[j]).ext@ != key) || exists|i: int|
                    0 <= i < entries.len() && (#[trigger] entries@[i]).ext@ == key && (forall|j: int|
                        0 <= j < i ==> (#[trigger] entries@[j]).ext@ != key) && (entries@[i].exe@.len()
                        == 0 || answered(file_exists, entries@[i].exe@, false)),
            }
        }),
{
    match route_for_file(file, entries) {
        None => None,
        Some(i) => {
            let exe = &entries[i].exe;
            if exe.as_str().unicode_len() == 0 {
                return None;
            }
            let here = file_exists(exe);
            if here {
                Some(exe.clone())
            } else {
                None
            }
        },
    }
}

/// The extensions an update of the routes drops are exactly those the old
/// routes had and the new ones lack.
pub proof fn law_dropped_exts_are_exactly_the_lost(old: Seq<Seq<char>>, new: Seq<Seq<char>>, x: Seq<
    char,
>)
    ensures
        dropped_exts(old, new).contains(x) <==> (old.contains(x) && !new.contains(x)),
    decreases old.len(),
{
    if old.len() > 0 {
        let d = old.drop_last();
        law_dropped_exts_are_exactly_the_lost(d, new, x);
        if old.contains(x) && !new.contains(x) && !d.contains(x) {
            let k = choose|k: int| 0 <= k < old.len() && old[k] == x;
            if k < old.len() - 1 {
                assert(d[k] == x);
            }
            assert(old.last() == x);
            assert(dropped_exts(old, new) == dropped_exts(d, new).push(x));
            assert(dropped_exts(old, new)[dropped_exts(d, new).len() as int] == x);
        }
        if d.contains(x) {
            let k = choose|k: int| 0 <= k < d.len() && d[k] == x;
            assert(old[k] == x);
        }
        if dropped_exts(old, new).contains(x) && !dropped_exts(d, new).contains(x) {
            let k = choose|k: int| 0 <= k < dropped_exts(old, new).len() && dropped_exts(old, new)[k] == x;
            assert(old[old.len() - 1] == old.last());
        }
        if dropped_exts(d, new).contains(x) {
            let k = choose|k: int| 0 <= k < dropped_exts(d, new).len() && dropped_exts(d, new)[k] == x;
            if !new.contains(old.last()) {
                assert(dropped_exts(old, new)[k] == x);
            }
        }
    }
}

/// The extensions the Linux desktop knows, each with its standard MIME type.
pub open spec fn standard_mime_table() -> Seq<(Seq<char>, Seq<char>)> {
    seq![
        ("md"@, "text/markdown"@),
        ("markdown"@, "text/markdown"@),
        ("txt"@, "text/plain"@),
        ("html"@, "text/html"@),
        ("htm"@, "text/html"@),
        ("rtf"@, "application/rtf"@),
        ("docx"@, "application/vnd.openxmlformats-officedocument.wordprocessingml.document"@),
        ("odt"@, "application/vnd.oasis.opendocument.text"@),
        ("xlsx"@, "application/vnd.openxmlformats-officedocument.spreadsheetml.sheet"@),
        ("csv"@, "text/csv"@),
        ("pptx"@, "application/vnd.openxmlformats-officedocument.presentationml.presentation"@),
        ("json"@, "application/json"@),
        ("js"@, "text/javascript"@),
        ("css"@, "text/css"@),
        ("yaml"@, "application/yaml"@),
        ("yml"@, "application/yaml"@),
        ("toml"@, "application/toml"@),
    ]
}

/// Law: every extension of the standard table is known, under its standard
/// MIME type, and a route for it is announced under that type.
pub proof fn law_standard_extensions_keep_their_mime()
    ensures
        forall|i: int|
            0 <= i < standard_mime_table().len() ==> {
                let (ext, mime) = #[trigger] standard_mime_table()[i];
                &&& known_mime_of(ext) == Some(mime)
                &&& mime_of(ext) == mime
            },
{
    reveal_strlit("md");
    reveal_strlit("markdown");
    reveal_strlit("txt");
    reveal_strlit("html");
    reveal_strlit("htm");
    reveal_strlit("rtf");
    reveal_strlit("docx");
    reveal_strlit("odt");
    reveal_strlit("xlsx");
    reveal_strlit("csv");
    reveal_strlit("pptx");
    reveal_strlit("json");
    reveal_strlit("js");
    reveal_strlit("css");
    reveal_strlit("yaml");
    reveal_strlit("yml");
    reveal_strlit("toml");
    assert("md"@[0] == 'm' && "md"@[1] == 'd');
    assert("markdown"@[0] == 'm' && "markdown"@[1] == 'a' && "markdown"@[2] == 'r');
    assert("txt"@[0] == 't' && "txt"@[1] == 'x' && "txt"@[2] == 't');
    assert("html"@[0] == 'h' && "html"@[1] == 't' && "html"@[2] == 'm');
    assert("htm"@[0] == 'h' && "htm"@[1] == 't' && "htm"@[2] == 'm');
    assert("rtf"@[0] == 'r' && "rtf"@[1] == 't' && "rtf"@[2] == 'f');
    assert("docx"@[0] == 'd' && "docx"@[1] == 'o' && "docx"@[2] == 'c');
    assert("odt"@[0] == 'o' && "odt"@[1] == 'd' && "odt"@[2] == 't');
    assert("xlsx"@[0] == 'x' && "xlsx"@[1] == 'l' && "xlsx"@[2] == 's');
    assert("csv"@[0] == 'c' && "csv"@[1] == 's' && "csv"@[2] == 'v');
    assert("pptx"@[0] == 'p' && "pptx"@[1] == 'p' && "pptx"@[2] == 't');
    assert("json"@[0] == 'j' && "json"@[1] == 's' && "json"@[2] == 'o');
    assert("js"@[0] == 'j' && "js"@[1] == 's');
    assert("css"@[0] == 'c' && "css"@[1] == 's' && "css"@[2] == 's');
    assert("yaml"@[0] == 'y' && "yaml"@[1] == 'a' && "yaml"@[2] == 'm');
    assert("yml"@[0] == 'y' && "yml"@[1] == 'm' && "yml"@[2] == 'l');
    assert("toml"@[0] == 't' && "toml"@[1] == 'o' && "toml"@[2] == 'm');
    let t = standard_mime_table();
    assert(t[0].0 == "md"@ && t[0].1 == "text/markdown"@);
    assert(known_mime_of(t[0].0) == Some(t[0].1));
    assert(t[1].0 == "markdown"@ && t[1].1 == "text/markdown"@);
    assert(known_mime_of(t[1].0) == Some(t[1].1));
    assert(t[2].0 == "txt"@ && t[2].1 == "text/plain"@);
    assert(known_mime_of(t[2].0) == Some(t[2].1));
    assert(t[3].0 == "html"@ && t[3].1 == "text/html"@);
    assert(known_mime_of(t[3].0) == Some(t[3].1));
    assert(t[4].0 == "htm"@ && t[4].1 == "text/html"@);
    assert(known_mime_of(t[4].0) == Some(t[4].1));
    assert(t[5].0 == "rtf"@ && t[5].1 == "application/rtf"@);
    assert(known_mime_of(t[5].0) == Some(t[5].1));
    assert(t[6].0 == "docx"@ && t[6].1 == "application/vnd.openxmlformats-officedocument.wordprocessingml.document"@);
    assert(known_mime_of(t[6].0) == Some(t[6].1));
    assert(t[7].0 == "odt"@ && t[7].1 == "application/vnd.oasis.opendocument.text"@);
    assert(known_mime_of(t[7].0) == Some(t[7].1));
    assert(t[8].0 == "xlsx"@ && t[8].1 == "application/vnd.openxmlformats-officedocument.spreadsheetml.sheet"@);
    assert(known_mime_of(t[8].0) == Some(t[8].1));
    assert(t[9].0 == "csv"@ && t[9].1 == "text/csv"@);
    assert(known_mime_of(t[9].0) == Some(t[9].1));
    assert(t[10].0 == "pptx"@ && t[10].1 == "application/vnd.openxmlformats-officedocument.presentationml.presentation"@);
    assert(known_mime_of(t[10].0) == Some(t[10].1));
    assert(t[11].0 == "json"@ && t[11].1 == "application/json"@);
    assert(known_mime_of(t[11].0) == Some(t[11].1));
    assert(t[12].0 == "js"@ && t[12].1 == "text/javascript"@);
    assert(known_mime_of(t[12].0) == Some(t[12].1));
    assert(t[13].0 == "css"@ && t[13].1 == "text/css"@);
    assert(known_mime_of(t[13].0) == Some(t[13].1));
    assert(t[14].0 == "yaml"@ && t[14].1 == "application/yaml"@);
    assert(known_mime_of(t[14].0) == Some(t[14].1));
    assert(t[15].0 == "yml"@ && t[15].1 == "application/yaml"@);
    assert(known_mime_of(t[15].0) == Some(t[15].1));
    assert(t[16].0 == "toml"@ && t[16].1 == "application/toml"@);
    assert(known_mime_of(t[16].0) == Some(t[16].1));
}

/// Law: an extension outside the standard table is unknown to the desktop,
/// and its route is announced under `application/x-taylor-` and the extension.
pub proof fn law_other_extensions_get_the_suite_type(ext: Seq<char>)
    requires
        forall|i: int| 0 <= i < standard_mime_table().len() ==> (#[trigger] standard_mime_table()[i]).0 != ext,
    ensures
        known_mime_of(ext) is None,
        mime_of(ext) == "application/x-taylor-"@ + ext,
{
    let t = standard_mime_table();
    assert(t[0].0 == "md"@ && t[0].1 == "text/markdown"@);
    assert(t[1].0 == "markdown"@ && t[1].1 == "text/markdown"@);
    assert(t[2].0 == "txt"@ && t[2].1 == "text/plain"@);
    assert(t[3].0 == "html"@ && t[3].1 == "text/html"@);
    assert(t[4].0 == "htm"@ && t[4].1 == "text/html"@);
    assert(t[5].0 == "rtf"@ && t[5].1 == "application/rtf"@);
    assert(t[6].0 == "docx"@ && t[6].1 == "application/vnd.openxmlformats-officedocument.wordprocessingml.document"@);
    assert(t[7].0 == "odt"@ && t[7].1 == "application/vnd.oasis.opendocument.text"@);
    assert(t[8].0 == "xlsx"@ && t[8].1 == "application/vnd.openxmlformats-officedocument.spreadsheetml.sheet"@);
    assert(t[9].0 == "csv"@ && t[9].1 == "text/csv"@);
    assert(t[10].0 == "pptx"@ && t[10].1 == "application/vnd.openxmlformats-officedocument.presentationml.presentation"@);
    assert(t[11].0 == "json"@ && t[11].1 == "application/json"@);
    assert(t[12].0 == "js"@ && t[12].1 == "text/javascript"@);
    assert(t[13].0 == "css"@ && t[13].1 == "text/css"@);
    assert(t[14].0 == "yaml"@ && t[14].1 == "application/yaml"@);
    assert(t[15].0 == "yml"@ && t[15].1 == "application/yaml"@);
    assert(t[16].0 == "toml"@ && t[16].1 == "application/toml"@);
}

} // verus!
