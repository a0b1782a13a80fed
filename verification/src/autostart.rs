//! Launch-on-startup through a shortcut in the user's Startup folder.
//!
//! Deliberately not a registry `Run` key: a `.lnk` in the Startup folder shows
//! up in Task Manager → Startup apps, where the user can enable or disable it
//! directly. The shell reads `%APPDATA%` and touches the file system; the
//! locations are worked out here.

use vstd::prelude::*;
use vstd::string::*;
use crate::config::{join_path, spec_join};

verus! {

/// `%APPDATA%\Microsoft\Windows\Start Menu\Programs\Startup`.
pub open spec fn spec_startup_dir(appdata: Seq<char>) -> Seq<char> {
    spec_join(
        spec_join(
            spec_join(spec_join(spec_join(appdata, "Microsoft"@), "Windows"@), "Start Menu"@),
            "Programs"@,
        ),
        "Startup"@,
    )
}

/// The Startup folder under the roaming application-data folder `appdata`.
pub fn startup_dir(appdata: &str) -> (r: String)
    ensures
        r@ == spec_startup_dir(appdata@),
{
    let a = join_path(appdata, "Microsoft");
    let b = join_path(a.as_str(), "Windows");
    let c = join_path(b.as_str(), "Start Menu");
    let d = join_path(c.as_str(), "Programs");
    join_path(d.as_str(), "Startup")
}

/// The startup shortcut: `AsBar.lnk` in the Startup folder.
pub fn shortcut_path(appdata: &str) -> (r: String)
    ensures
        r@ == spec_join(spec_startup_dir(appdata@), "AsBar.lnk"@),
{
    let dir = startup_dir(appdata);
    join_path(dir.as_str(), "AsBar.lnk")
}

/// What installing or removing the startup shortcut comes down to.
#[derive(Debug, PartialEq, Eq)]
pub enum ShortcutStep {
    /// Write the shortcut at this path.
    Create(String),
    /// Delete the shortcut at this path, if it exists.
    Remove(String),
}

/// The error when `%APPDATA%` is unknown.
pub open spec fn no_startup_folder() -> Seq<char> {
    "could not locate the Startup folder"@
}

/// Install (`enabled`) or remove the startup shortcut, given the roaming
/// application-data folder if the environment names one.
pub fn shortcut_step(appdata: Option<String>, enabled: bool) -> (r: Result<ShortcutStep, String>)
    ensures
        match r {
            Ok(ShortcutStep::Create(p)) => appdata matches Some(a) && enabled && p@ == spec_join(
                spec_startup_dir(a@),
                "AsBar.lnk"@,
            ),
            Ok(ShortcutStep::Remove(p)) => appdata matches Some(a) && !enabled && p@ == spec_join(
                spec_startup_dir(a@),
                "AsBar.lnk"@,
            ),
            Err(e) => appdata is None && e@ == no_startup_folder(),
        },
{
    match appdata {
        None => Err(String::from_str("could not locate the Startup folder")),
        Some(a) => {
            let path = shortcut_path(a.as_str());
            if enabled {
                Ok(ShortcutStep::Create(path))
            } else {
                Ok(ShortcutStep::Remove(path))
            }
        },
    }
}

} // verus!
