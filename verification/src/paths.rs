//! Where the settings live: the XDG config base and the files under it,
//! computed from the environment values the caller read.

use vstd::prelude::*;
use vstd::string::*;
use crate::errors::SettingsError;

verus! {

/// `base` with the relative path `rel` appended, a `/` put between them
/// unless `base` already ends with one (`PathBuf::join` of a relative path).
pub open spec fn join_path(base: Seq<char>, rel: Seq<char>) -> Seq<char> {
    if base.len() == 0 || base.last() == '/' {
        base + rel
    } else {
        base + seq!['/'] + rel
    }
}

fn join(base: &str, rel: &str) -> (r: String)
    ensures
        r@ == join_path(base@, rel@),
{
    let b = crate::text::chars_of(base);
    let mut out: String = base.to_owned();
    if !(b.len() == 0 || b[b.len() - 1] == '/') {
        crate::text::push_char(&mut out, '/');
    }
    out.append(rel);
    assert(out@ =~= join_path(base@, rel@));
    out
}

/// The message when neither variable is usable.
pub open spec fn no_base_message() -> Seq<char> {
    "neither XDG_CONFIG_HOME nor HOME is set"@
}

/// The config base: a non-empty `XDG_CONFIG_HOME`, else `$HOME/.config` for
/// a non-empty `HOME`, else an `Io` error.
pub fn config_base(xdg: Option<&str>, home: Option<&str>) -> (r: Result<String, SettingsError>)
    ensures
        match xdg {
            Some(x) if x@.len() > 0 => r matches Ok(p) && p@ == x@,
            _ => match home {
                Some(h) if h@.len() > 0 => r matches Ok(p) && p@ == join_path(h@, ".config"@),
                _ => r matches Err(SettingsError::Io(m)) && m@ == no_base_message(),
            },
        },
{
    if let Some(x) = xdg {
        if !x.is_empty() {
            return Ok(x.to_owned());
        }
    }
    match home {
        Some(h) => if !h.is_empty() {
            Ok(join(h, ".config"))
        } else {
            Err(SettingsError::Io(String::from_str("neither XDG_CONFIG_HOME nor HOME is set")))
        },
        None => Err(SettingsError::Io(String::from_str("neither XDG_CONFIG_HOME nor HOME is set"))),
    }
}

/// The directory of the editor's own files under the config base.
pub fn shell_config_dir(base: &str) -> (r: String)
    ensures
        r@ == join_path(base@, "niri-shell"@),
{
    join(base, "niri-shell")
}

/// The JSON store.
pub fn json_path(base: &str) -> (r: String)
    ensures
        r@ == join_path(join_path(base@, "niri-shell"@), "settings.json"@),
{
    let d = shell_config_dir(base);
    join(d.as_str(), "settings.json")
}

/// The managed KDL fragment niri includes.
pub fn kdl_path(base: &str) -> (r: String)
    ensures
        r@ == join_path(join_path(base@, "niri-shell"@), "settings.kdl"@),
{
    let d = shell_config_dir(base);
    join(d.as_str(), "settings.kdl")
}

/// The shell preferences file.
pub fn path(base: &str) -> (r: String)
    ensures
        r@ == join_path(base@, "niri-shell/shell.kdl"@),
{
    join(base, "niri-shell/shell.kdl")
}

/// The main niri config: a non-empty `NIRI_CONFIG`, else
/// `niri/config.kdl` under the config base (computed only when needed).
pub open spec fn niri_config_spec(niri_config: Option<Seq<char>>, base: Seq<char>) -> Seq<char> {
    match niri_config {
        Some(p) if p.len() > 0 => p,
        _ => join_path(join_path(base, "niri"@), "config.kdl"@),
    }
}

/// The main niri config path (see [`niri_config_spec`]).
pub fn niri_config_path(niri_config: Option<&str>, base: &str) -> (r: String)
    ensures
        r@ == niri_config_spec(
            match niri_config {
                Some(p) => Some(p@),
                None => None,
            },
            base@,
        ),
{
    if let Some(p) = niri_config {
        if !p.is_empty() {
            return p.to_owned();
        }
    }
    let d = join(base, "niri");
    join(d.as_str(), "config.kdl")
}

} // verus!
