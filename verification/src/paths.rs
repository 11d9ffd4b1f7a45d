//! The few `std::path` operations the library needs. Each is named by what
//! it returns; the text follows the path syntax of the platform the library
//! is built for (`/` on Linux, `\` and `/` on Windows).
use vstd::prelude::*;
use vstd::string::*;

verus! {

/// `Path::new(base).join(rest)`, as text.
pub uninterp spec fn joined_path(base: Seq<char>, rest: Seq<char>) -> Seq<char>;

/// `Path::new(p).parent()`, as text.
pub uninterp spec fn parent_of(p: Seq<char>) -> Option<Seq<char>>;

/// `Path::new(p).file_name()`, as text.
pub uninterp spec fn file_name_of(p: Seq<char>) -> Option<Seq<char>>;

/// `Path::new(p).extension()`, as text.
pub uninterp spec fn extension_of(p: Seq<char>) -> Option<Seq<char>>;

/// `Path::join`: the contract names its result `joined_path(base@, rest@)`.
#[verifier::external_body]
pub(crate) fn path_join(base: &str, rest: &str) -> (r: String)
    ensures
        r@ == joined_path(base@, rest@),
{
    std::path::Path::new(base).join(rest).to_string_lossy().to_string()
}

/// `Path::parent`: the contract names its result `parent_of(p@)`.
#[verifier::external_body]
pub(crate) fn path_parent(p: &str) -> (r: Option<String>)
    ensures
        match r {
            Some(s) => parent_of(p@) == Some(s@),
            None => parent_of(p@) is None,
        },
{
    match std::path::Path::new(p).parent() {
        Some(q) => Some(q.to_string_lossy().to_string()),
        None => None,
    }
}

/// `Path::file_name`: the contract names its result `file_name_of(p@)`.
#[verifier::external_body]
pub(crate) fn path_file_name(p: &str) -> (r: Option<String>)
    ensures
        match r {
            Some(s) => file_name_of(p@) == Some(s@),
            None => file_name_of(p@) is None,
        },
{
    match std::path::Path::new(p).file_name() {
        Some(q) => Some(q.to_string_lossy().to_string()),
        None => None,
    }
}

/// `Path::extension`: the contract names its result `extension_of(p@)`.
#[verifier::external_body]
pub(crate) fn path_extension(p: &str) -> (r: Option<String>)
    ensures
        match r {
            Some(s) => extension_of(p@) == Some(s@),
            None => extension_of(p@) is None,
        },
{
    match std::path::Path::new(p).extension() {
        Some(q) => Some(q.to_string_lossy().to_string()),
        None => None,
    }
}

/// The parent of `p` as text, empty when it has none.
pub open spec fn parent_or_empty(p: Seq<char>) -> Seq<char> {
    match parent_of(p) {
        Some(q) => q,
        None => Seq::empty(),
    }
}

pub fn parent_text(p: &str) -> (r: String)
    ensures
        r@ == parent_or_empty(p@),
{
    match path_parent(p) {
        Some(q) => q,
        None => String::new(),
    }
}

/// A variable of the environment, or `.` when it is unset.
pub open spec fn or_here(v: Option<String>) -> Seq<char> {
    match v {
        Some(s) => s@,
        None => "."@,
    }
}

/// The Hub's configuration folder: on Windows `TaylorHub` under `APPDATA`;
/// elsewhere `taylorhub` under `XDG_CONFIG_HOME`, else under `.config` in
/// `HOME`. An unset variable stands for the current folder.
pub open spec fn config_dir_path(
    windows: bool,
    appdata: Option<String>,
    xdg_config_home: Option<String>,
    home: Option<String>,
) -> Seq<char> {
    if windows {
        joined_path(or_here(appdata), "TaylorHub"@)
    } else {
        match xdg_config_home {
            Some(x) => joined_path(x@, "taylorhub"@),
            None => joined_path(joined_path(or_here(home), ".config"@), "taylorhub"@),
        }
    }
}

pub fn config_dir_for(
    windows: bool,
    appdata: Option<String>,
    xdg_config_home: Option<String>,
    home: Option<String>,
) -> (r: String)
    ensures
        r@ == config_dir_path(windows, appdata, xdg_config_home, home),
{
    if windows {
        let base = match appdata {
            Some(a) => a,
            None => String::from_str("."),
        };
        return path_join(base.as_str(), "TaylorHub");
    }
    match xdg_config_home {
        Some(x) => path_join(x.as_str(), "taylorhub"),
        None => {
            let h = match home {
                Some(h) => h,
                None => String::from_str("."),
            };
            let base = path_join(h.as_str(), ".config");
            path_join(base.as_str(), "taylorhub")
        },
    }
}

} // verus!
