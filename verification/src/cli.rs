//! The command line, and where things are kept.

use crate::text;
use vstd::prelude::*;

verus! {

/// What the command line asks for.
#[derive(Debug, Clone, Copy, PartialEq, Eq, Structural)]
pub enum CliMode {
    /// Offer the tools over the standard streams.
    Mcp,
    /// Install the document for agents.
    InstallSkill,
    /// The mail client itself.
    Tui,
}

/// `--mcp`, anywhere, comes first; then `install skill`.
pub open spec fn mode_of(args: Seq<String>) -> CliMode {
    if exists|i: int| 0 <= i < args.len() && (#[trigger] args[i])@ == "--mcp"@ {
        CliMode::Mcp
    } else if args.len() >= 2 && args[0]@ == "install"@ && args[1]@ == "skill"@ {
        CliMode::InstallSkill
    } else {
        CliMode::Tui
    }
}

/// Which entry point the arguments select.
pub fn cli_mode(args: &[String]) -> (r: CliMode)
    ensures
        r == mode_of(args@),
{
    let mut i: usize = 0;
    while i < args.len()
        invariant
            i <= args@.len(),
            forall|k: int| 0 <= k < i ==> (#[trigger] args@[k])@ != "--mcp"@,
        decreases args@.len() - i,
    {
        if text::same(args[i].as_str(), "--mcp") {
            return CliMode::Mcp;
        }
        i += 1;
    }
    if args.len() >= 2 && text::same(args[0].as_str(), "install") && text::same(
        args[1].as_str(),
        "skill",
    ) {
        return CliMode::InstallSkill;
    }
    CliMode::Tui
}

/// `part` below `base`, with a separator between them unless `base` ends in one
/// or is empty.
pub open spec fn below(base: Seq<char>, part: Seq<char>, sep: char) -> Seq<char> {
    if base.len() == 0 || base.last() == sep {
        base + part
    } else {
        base.push(sep) + part
    }
}

/// Joins a path and one more component.
pub fn join(base: &str, part: &str, sep: char) -> (r: String)
    ensures
        r@ == below(base@, part@, sep),
{
    let v = text::chars_of(base);
    let mut s: String = base.to_string();
    if v.len() > 0 && v[v.len() - 1] != sep {
        s.push(sep);
    }
    s.append(part);
    s
}

/// The home directory: of the two variables that may say it the first that is
/// set, or else the working directory.
pub open spec fn home_of(home: Option<String>, profile: Option<String>) -> Seq<char> {
    match home {
        Some(h) => h@,
        None => match profile {
            Some(p) => p@,
            None => "."@,
        },
    }
}

fn home_dir(home: &Option<String>, profile: &Option<String>) -> (r: String)
    ensures
        r@ == home_of(*home, *profile),
{
    match home {
        Some(h) => h.clone(),
        None => match profile {
            Some(p) => p.clone(),
            None => ".".to_string(),
        },
    }
}

/// Where the client keeps its data.
pub open spec fn data_dir(
    local_appdata: Option<String>,
    home: Option<String>,
    profile: Option<String>,
    sep: char,
) -> Seq<char> {
    match local_appdata {
        Some(base) => below(base@, "lookxy"@, sep),
        None => below(
            below(below(home_of(home, profile), ".local"@, sep), "share"@, sep),
            "lookxy"@,
            sep,
        ),
    }
}

/// The client's own directory: under the local application data where the system
/// has such a place, or else under the home directory.
pub fn lookxy_dir(
    local_appdata: &Option<String>,
    home: &Option<String>,
    profile: &Option<String>,
    sep: char,
) -> (r: String)
    ensures
        r@ == data_dir(*local_appdata, *home, *profile, sep),
{
    match local_appdata {
        Some(base) => join(base.as_str(), "lookxy", sep),
        None => {
            let h = home_dir(home, profile);
            let local = join(h.as_str(), ".local", sep);
            let share = join(local.as_str(), "share", sep);
            join(share.as_str(), "lookxy", sep)
        },
    }
}

/// The one mail database, in the client's own directory.
pub fn store_path_for(dir: &str, sep: char) -> (r: String)
    ensures
        r@ == below(dir@, "mail.db"@, sep),
{
    join(dir, "mail.db", sep)
}

/// Where attachments are saved.
pub open spec fn downloads_of(
    own: Option<String>,
    home: Option<String>,
    profile: Option<String>,
    sep: char,
) -> Seq<char> {
    match own {
        Some(base) => below(base@, "Downloads"@, sep),
        None => below(home_of(home, profile), "Downloads"@, sep),
    }
}

/// The downloads directory: under the user's profile where the system keeps it
/// there, or else under the home directory.
pub fn downloads_dir(
    own: &Option<String>,
    home: &Option<String>,
    profile: &Option<String>,
    sep: char,
) -> (r: String)
    ensures
        r@ == downloads_of(*own, *home, *profile, sep),
{
    match own {
        Some(base) => join(base.as_str(), "Downloads", sep),
        None => {
            let h = home_dir(home, profile);
            join(h.as_str(), "Downloads", sep)
        },
    }
}

/// Where the settings are kept: nowhere, where the variable that says it is not
/// set. `roaming` tells whether the base is the roaming application data, or the
/// home directory.
pub open spec fn config_path_of(base: Option<String>, roaming: bool, sep: char) -> Option<
    Seq<char>,
> {
    match base {
        Some(b) => {
            let dir = if roaming {
                b@
            } else {
                below(b@, ".config"@, sep)
            };
            Some(below(below(dir, "lookxy"@, sep), "config.json"@, sep))
        },
        None => None,
    }
}

/// The settings file.
pub fn config_file_path(base: &Option<String>, roaming: bool, sep: char) -> (r: Option<String>)
    ensures
        match r {
            Some(p) => config_path_of(*base, roaming, sep) == Some(p@),
            None => config_path_of(*base, roaming, sep) is None,
        },
{
    match base {
        Some(b) => {
            let dir: String = if roaming {
                b.clone()
            } else {
                join(b.as_str(), ".config", sep)
            };
            let own = join(dir.as_str(), "lookxy", sep);
            Some(join(own.as_str(), "config.json", sep))
        },
        None => None,
    }
}

}
