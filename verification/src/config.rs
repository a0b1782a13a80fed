//! Where AsBar keeps its files, and where the island docks.
//!
//! Paths are carried as text and joined with `/`, which Windows accepts as a
//! separator just like `\`; the shell turns them into `PathBuf`s at the point
//! where it touches the file system.

use vstd::prelude::*;
use vstd::string::*;

verus! {

/// A path separator: `/` or `\`.
pub open spec fn is_path_sep(c: char) -> bool {
    c == '/' || c == '\\'
}

/// `Path::join` of a relative component: a separator is inserted unless the
/// base is empty or already ends with one.
pub open spec fn spec_join(base: Seq<char>, part: Seq<char>) -> Seq<char> {
    if base.len() > 0 && !is_path_sep(base.last()) {
        base + seq!['/'] + part
    } else {
        base + part
    }
}

/// Join the relative component `part` onto `base`.
pub fn join_path(base: &str, part: &str) -> (r: String)
    ensures
        r@ == spec_join(base@, part@),
{
    let mut out = String::from_str(base);
    let n = base.unicode_len();
    if n > 0 {
        let last = base.get_char(n - 1);
        if !(last == '/' || last == '\\') {
            out.push('/');
        }
    }
    out.append(part);
    out
}

/// Root directory that hosts the config file and the icon cache.
pub open spec fn spec_root_dir() -> Seq<char> {
    "C:/AsBar"@
}

/// The icon cache: `<root>/Assets/Icons`.
pub open spec fn spec_icons_dir() -> Seq<char> {
    spec_join(spec_join(spec_root_dir(), "Assets"@), "Icons"@)
}

/// Root directory that hosts the config file and the icon cache.
pub fn root_dir() -> (r: String)
    ensures
        r@ == spec_root_dir(),
{
    String::from_str("C:/AsBar")
}

/// Directory of the album-art cache.
pub fn icons_dir() -> (r: String)
    ensures
        r@ == spec_icons_dir(),
{
    let root = root_dir();
    let assets = join_path(root.as_str(), "Assets");
    join_path(assets.as_str(), "Icons")
}

/// The persisted settings file: `<root>/config.json`.
pub fn config_path() -> (r: String)
    ensures
        r@ == spec_join(spec_root_dir(), "config.json"@),
{
    let root = root_dir();
    join_path(root.as_str(), "config.json")
}

/// Where on the screen the island docks horizontally.
#[derive(Debug, Clone, Copy, PartialEq, Eq, Structural)]
pub enum Anchor {
    Left,
    Center,
    Right,
}

impl Default for Anchor {
    fn default() -> (r: Anchor)
        ensures
            r == Anchor::Center,
    {
        Anchor::Center
    }
}

/// The island's settings, all but its opacity (a fraction, which the shell
/// keeps beside them).
#[derive(Debug, Clone)]
pub struct Settings {
    /// Collapsed island width in logical pixels.
    pub width: u32,
    /// Collapsed island height in logical pixels.
    pub height: u32,
    /// Distance from the top edge of the work area, logical pixels.
    pub margin_top: i32,
    /// Horizontal anchor on the primary monitor.
    pub anchor: Anchor,
    /// Manual horizontal nudge applied after anchoring, logical pixels.
    pub offset_x: i32,
    /// Background color of the island (hex, e.g. `#0B0B0F`).
    pub bg_color: String,
    /// Primary text color (hex).
    pub text_color: String,
    /// Accent color used for the progress bar / active controls (hex).
    pub accent_color: String,
    /// Corner radius in logical pixels.
    pub corner_radius: u32,
    /// When true, `accent_color` is overridden by the Windows system accent.
    pub follow_system_accent: bool,
    /// Keep the island above other windows.
    pub always_on_top: bool,
    /// When true, the island tints itself with the album-art dominant color.
    pub dynamic_accent: bool,
    /// Whether the launch-on-startup shortcut is installed.
    pub autostart: bool,
    /// UI language: `"ru"` or `"en"`.
    pub language: String,
}

impl Default for Settings {
    /// The settings of a fresh install: a 510 x 100 island centred at the top
    /// of the screen, dark, with rounded corners, in Russian, not started
    /// with Windows.
    fn default() -> (r: Settings)
        ensures
            r.width == 510,
            r.height == 100,
            r.margin_top == 0,
            r.anchor == Anchor::Center,
            r.offset_x == 0,
            r.bg_color@ == "#050507"@,
            r.text_color@ == "#FFFFFF"@,
            r.accent_color@ == "#E0E0EC"@,
            r.corner_radius == 30,
            !r.follow_system_accent,
            r.always_on_top,
            r.dynamic_accent,
            !r.autostart,
            r.language@ == "ru"@,
    {
        Settings {
            width: 510,
            height: 100,
            margin_top: 0,
            anchor: Anchor::Center,
            offset_x: 0,
            bg_color: String::from_str("#050507"),
            text_color: String::from_str("#FFFFFF"),
            accent_color: String::from_str("#E0E0EC"),
            corner_radius: 30,
            follow_system_accent: false,
            always_on_top: true,
            dynamic_accent: true,
            autostart: false,
            language: String::from_str("ru"),
        }
    }
}

/// The icon directory is `C:/AsBar/Assets/Icons`, inside the root directory.
pub proof fn law_icons_dir_under_root()
    ensures
        spec_icons_dir() == "C:/AsBar/Assets/Icons"@,
        spec_icons_dir().subrange(0, spec_root_dir().len() as int) == spec_root_dir(),
{
    reveal_strlit("C:/AsBar");
    reveal_strlit("Assets");
    reveal_strlit("Icons");
    reveal_strlit("C:/AsBar/Assets/Icons");
    assert(spec_icons_dir() =~= "C:/AsBar/Assets/Icons"@);
    assert(spec_icons_dir().subrange(0, 8) =~= spec_root_dir());
}

} // verus!
