//! Where DBX keeps its data on this machine.
use vstd::prelude::*;
use crate::text::{chars_of, push_str};

verus! {

/// The file name of DBX's storage database.
pub const STORAGE_DB_FILE_NAME: &'static str = "dbx.db";

/// The operating systems whose data directories differ.
#[derive(Debug, Clone, Copy, PartialEq, Eq, Structural)]
pub enum TargetOs {
    MacOs,
    Windows,
    Other,
}

pub open spec fn is_ascii_letter(c: char) -> bool {
    ('a' <= c && c <= 'z') || ('A' <= c && c <= 'Z')
}

/// A Windows path that is only a drive: `C:`, or its verbatim form `\\?\C:`.
pub open spec fn is_drive_only(base: Seq<char>) -> bool {
    ||| base.len() == 2 && is_ascii_letter(base[0]) && base[1] == ':'
    ||| base.len() == 6 && base[0] == '\\' && base[1] == '\\' && base[2] == '?' && base[3] == '\\'
        && is_ascii_letter(base[4]) && base[5] == ':'
}

/// `base` joined with a relative path (`Path::join`): the relative path alone for an
/// empty base, else with `sep` between them unless the base already ends with a
/// separator or, on Windows, is only a drive (`C:` joined with `x` is `C:x`).
pub open spec fn path_join(base: Seq<char>, rel: Seq<char>, windows: bool) -> Seq<char> {
    let sep = if windows {
        '\\'
    } else {
        '/'
    };
    if base.len() == 0 {
        rel
    } else if base.last() == '/' || (windows && base.last() == '\\') || (windows && is_drive_only(base)) {
        base + rel
    } else {
        base + seq![sep] + rel
    }
}

fn is_ascii_letter_exec(c: char) -> (r: bool)
    ensures
        r == is_ascii_letter(c),
{
    ('a' <= c && c <= 'z') || ('A' <= c && c <= 'Z')
}

fn is_drive_only_exec(b: &Vec<char>) -> (r: bool)
    ensures
        r == is_drive_only(b@),
{
    (b.len() == 2 && is_ascii_letter_exec(b[0]) && b[1] == ':') || (b.len() == 6 && b[0] == '\\' && b[1] == '\\'
        && b[2] == '?' && b[3] == '\\' && is_ascii_letter_exec(b[4]) && b[5] == ':')
}

pub fn join_path(base: &str, rel: &str, windows: bool) -> (r: String)
    ensures
        r@ == path_join(base@, rel@, windows),
{
    let b = chars_of(base);
    let mut out = String::new();
    push_str(&mut out, base);
    let last_is_sep = b.len() > 0 && (b[b.len() - 1] == '/' || (windows && b[b.len() - 1] == '\\'));
    let drive_only = windows && is_drive_only_exec(&b);
    if b.len() > 0 && !last_is_sep && !drive_only {
        crate::text::push_char(&mut out, if windows { '\\' } else { '/' });
    }
    push_str(&mut out, rel);
    out
}

pub open spec fn non_empty(o: Option<String>) -> Option<Seq<char>> {
    match o {
        Some(s) => if s@.len() > 0 {
            Some(s@)
        } else {
            None
        },
        None => None,
    }
}

/// DBX's data directory from the values of its environment: `DBX_DATA_DIR` when set
/// and not empty; else under the home directory (`HOME`, else `USERPROFILE`), in the
/// operating system's place for application data (on Windows `APPDATA` when set).
pub open spec fn spec_app_data_dir(
    data_dir: Option<String>,
    home: Option<String>,
    user_profile: Option<String>,
    app_data: Option<String>,
    os: TargetOs,
) -> Result<Seq<char>, Seq<char>> {
    match non_empty(data_dir) {
        Some(d) => Ok(d),
        None => {
            let h = match home {
                Some(h) => Some(h@),
                None => match user_profile {
                    Some(u) => Some(u@),
                    None => None,
                },
            };
            match h {
                None => Err("Unable to resolve the user home directory. Set DBX_DATA_DIR explicitly."@),
                Some(h) => Ok(
                    match os {
                        TargetOs::MacOs => path_join(h, "Library/Application Support/com.dbx.app"@, false),
                        TargetOs::Windows => path_join(
                            match app_data {
                                Some(a) => a@,
                                None => path_join(h, "AppData/Roaming"@, true),
                            },
                            "com.dbx.app"@,
                            true,
                        ),
                        TargetOs::Other => path_join(h, ".local/share/com.dbx.app"@, false),
                    },
                ),
            }
        },
    }
}

pub fn app_data_dir(
    data_dir: Option<String>,
    home: Option<String>,
    user_profile: Option<String>,
    app_data: Option<String>,
    os: TargetOs,
) -> (r: Result<String, String>)
    ensures
        match r {
            Ok(p) => spec_app_data_dir(data_dir, home, user_profile, app_data, os) == Ok::<Seq<char>, Seq<char>>(p@),
            Err(e) => spec_app_data_dir(data_dir, home, user_profile, app_data, os) == Err::<Seq<char>, Seq<char>>(e@),
        },
{
    if let Some(d) = &data_dir {
        if d.as_str().unicode_len() > 0 {
            return Ok(d.clone());
        }
    }
    let h = match home {
        Some(h) => h,
        None => match user_profile {
            Some(u) => u,
            None => {
                let mut e = String::new();
                push_str(&mut e, "Unable to resolve the user home directory. Set DBX_DATA_DIR explicitly.");
                return Err(e);
            },
        },
    };
    match os {
        TargetOs::MacOs => Ok(join_path(h.as_str(), "Library/Application Support/com.dbx.app", false)),
        TargetOs::Windows => {
            let base = match app_data {
                Some(a) => a,
                None => join_path(h.as_str(), "AppData/Roaming", true),
            };
            Ok(join_path(base.as_str(), "com.dbx.app", true))
        },
        TargetOs::Other => Ok(join_path(h.as_str(), ".local/share/com.dbx.app", false)),
    }
}

/// The storage database: `dbx.db` in the data directory.
pub fn storage_db_path(
    data_dir: Option<String>,
    home: Option<String>,
    user_profile: Option<String>,
    app_data: Option<String>,
    os: TargetOs,
) -> (r: Result<String, String>)
    ensures
        match spec_app_data_dir(data_dir, home, user_profile, app_data, os) {
            Ok(d) => r matches Ok(p) && p@ == path_join(d, "dbx.db"@, os == TargetOs::Windows),
            Err(e) => r matches Err(m) && m@ == e,
        },
{
    let dir = app_data_dir(data_dir, home, user_profile, app_data, os)?;
    Ok(join_path(dir.as_str(), STORAGE_DB_FILE_NAME, os == TargetOs::Windows))
}

} // verus!
