//! Decisions of the desktop shell around the island: which windows should be
//! on screen, what the tray menu says and does, how a close request is
//! answered, and how the system accent color is written.

use vstd::prelude::*;
use vstd::string::*;
use crate::text::str_eq;

verus! {

// ---------------------------------------------------------------------------
// Windows that should be visible
// ---------------------------------------------------------------------------

/// Labels of the windows that should be on screen right now. The visibility
/// guard restores any of these that "Show desktop" minimized or hid.
pub struct VisibleSet {
    labels: Vec<String>,
}

impl View for VisibleSet {
    type V = Set<Seq<char>>;

    closed spec fn view(&self) -> Set<Seq<char>> {
        Set::new(|m: Seq<char>| exists|i: int| 0 <= i < self.labels@.len() && #[trigger] self.labels@[i]@ == m)
    }
}

impl VisibleSet {
    /// Each label is held once.
    #[verifier::type_invariant]
    closed spec fn distinct(&self) -> bool {
        forall|i: int, j: int|
            0 <= i < j < self.labels@.len() ==> #[trigger] self.labels@[i]@ != #[trigger] self.labels@[j]@
    }

    /// No window is marked visible.
    pub fn new() -> (r: VisibleSet)
        ensures
            r@ == Set::<Seq<char>>::empty(),
    {
        let r = VisibleSet { labels: Vec::new() };
        assert(r@ =~= Set::<Seq<char>>::empty());
        r
    }

    fn index_of(&self, label: &str) -> (r: Option<usize>)
        ensures
            match r {
                Some(i) => i < self.labels@.len() && self.labels@[i as int]@ == label@,
                None => !self@.contains(label@),
            },
    {
        let mut k: usize = 0;
        while k < self.labels.len()
            invariant
                k <= self.labels@.len(),
                forall|j: int| 0 <= j < k ==> self.labels@[j]@ != label@,
            decreases self.labels@.len() - k,
        {
            if str_eq(self.labels[k].as_str(), label) {
                return Some(k);
            }
            k = k + 1;
        }
        None
    }

    /// Whether the window `label` should be on screen.
    pub fn contains(&self, label: &str) -> (r: bool)
        ensures
            r == self@.contains(label@),
    {
        self.index_of(label).is_some()
    }

    /// Mark a window as intended-visible (or not) for the visibility guard.
    pub fn mark_visible(&mut self, label: &str, vis: bool)
        ensures
            final(self)@ == (if vis {
                old(self)@.insert(label@)
            } else {
                old(self)@.remove(label@)
            }),
    {
        proof {
            use_type_invariant(&*self);
        }
        let ghost before = self.labels@;
        match self.index_of(label) {
            Some(i) => {
                if !vis {
                    let mut labels: Vec<String> = Vec::new();
                    std::mem::swap(&mut labels, &mut self.labels);
                    labels.remove(i);
                    proof {
                        assert forall|p: int, q: int|
                            0 <= p < q < labels@.len() implies #[trigger] labels@[p]@ != #[trigger] labels@[q]@ by {
                            let pp = if p < i { p } else { p + 1 };
                            let qq = if q < i { q } else { q + 1 };
                            assert(labels@[p] == before[pp]);
                            assert(labels@[q] == before[qq]);
                        }
                    }
                    self.labels = labels;
                    proof {
                        let after = self.labels@;
                        assert forall|m: Seq<char>| #[trigger] self@.contains(m) == old(self)@.remove(
                            label@,
                        ).contains(m) by {
                            if self@.contains(m) {
                                let j = choose|j: int| 0 <= j < after.len() && #[trigger] after[j]@ == m;
                                if j < i {
                                    assert(after[j] == before[j]);
                                    assert(j != i);
                                } else {
                                    assert(after[j] == before[j + 1]);
                                }
                            }
                            if old(self)@.remove(label@).contains(m) {
                                let j = choose|j: int| 0 <= j < before.len() && #[trigger] before[j]@ == m;
                                assert(j != i);
                                if j < i {
                                    assert(after[j] == before[j]);
                                } else {
                                    assert(after[j - 1] == before[j]);
                                }
                            }
                        }
                        assert(self@ =~= old(self)@.remove(label@));
                    }
                } else {
                    proof {
                        assert(old(self)@.contains(label@));
                        assert(old(self)@.insert(label@) =~= old(self)@);
                    }
                }
            },
            None => {
                if vis {
                    let mut labels: Vec<String> = Vec::new();
                    std::mem::swap(&mut labels, &mut self.labels);
                    labels.push(String::from_str(label));
                    proof {
                        assert forall|p: int, q: int|
                            0 <= p < q < labels@.len() implies #[trigger] labels@[p]@ != #[trigger] labels@[q]@ by {
                            if q == before.len() {
                                assert(labels@[p] == before[p]);
                                assert(old(self)@.contains(before[p]@)) by {
                                    assert(before[p]@ == before[p]@);
                                }
                            } else {
                                assert(labels@[p] == before[p]);
                                assert(labels@[q] == before[q]);
                            }
                        }
                    }
                    self.labels = labels;
                    proof {
                        let after = self.labels@;
                        assert forall|m: Seq<char>| #[trigger] self@.contains(m) == old(self)@.insert(
                            label@,
                        ).contains(m) by {
                            if self@.contains(m) {
                                let j = choose|j: int| 0 <= j < after.len() && #[trigger] after[j]@ == m;
                                if j < before.len() {
                                    assert(after[j] == before[j]);
                                }
                            }
                            if old(self)@.contains(m) {
                                let j = choose|j: int| 0 <= j < before.len() && #[trigger] before[j]@ == m;
                                assert(after[j] == before[j]);
                            }
                            if m == label@ {
                                assert(after[before.len() as int]@ == m);
                            }
                        }
                        assert(self@ =~= old(self)@.insert(label@));
                    }
                } else {
                    proof {
                        assert(old(self)@.remove(label@) =~= old(self)@);
                    }
                }
            },
        }
    }

    /// The labels of the windows that should be on screen, each once.
    pub fn labels(&self) -> (r: Vec<String>)
        ensures
            forall|m: Seq<char>| self@.contains(m) <==> exists|i: int| 0 <= i < r@.len() && #[trigger] r@[i]@ == m,
            forall|i: int, j: int| 0 <= i < j < r@.len() ==> #[trigger] r@[i]@ != #[trigger] r@[j]@,
    {
        proof {
            use_type_invariant(self);
        }
        let mut out: Vec<String> = Vec::new();
        let mut k: usize = 0;
        while k < self.labels.len()
            invariant
                k <= self.labels@.len(),
                out@.len() == k,
                forall|j: int| 0 <= j < k ==> #[trigger] out@[j]@ == self.labels@[j]@,
            decreases self.labels@.len() - k,
        {
            out.push(self.labels[k].clone());
            k = k + 1;
        }
        proof {
            assert forall|m: Seq<char>| self@.contains(m) <==> exists|i: int| 0 <= i < out@.len() && #[trigger] out@[i]@ == m by {
                if self@.contains(m) {
                    let j = choose|j: int| 0 <= j < self.labels@.len() && #[trigger] self.labels@[j]@ == m;
                    assert(out@[j]@ == m);
                }
                if exists|i: int| 0 <= i < out@.len() && #[trigger] out@[i]@ == m {
                    let j = choose|j: int| 0 <= j < out@.len() && #[trigger] out@[j]@ == m;
                    assert(self.labels@[j]@ == m);
                }
            }
            assert forall|i: int, j: int| 0 <= i < j < out@.len() implies #[trigger] out@[i]@ != #[trigger] out@[j]@ by {
                assert(out@[i]@ == self.labels@[i]@);
                assert(out@[j]@ == self.labels@[j]@);
            }
        }
        out
    }
}

// ---------------------------------------------------------------------------
// Tray
// ---------------------------------------------------------------------------

/// Localized tray menu labels: (assistant, settings, toggle, quit). English
/// for `en`, Russian for every other language.
pub fn tray_labels(lang: &str) -> (r: (&'static str, &'static str, &'static str, &'static str))
    ensures
        lang@ == "en"@ ==> r.0@ == "AI assistant"@ && r.1@ == "Settings"@ && r.2@
            == "Show / hide island"@ && r.3@ == "Quit"@,
        lang@ != "en"@ ==> r.0@ == "AI-ассистент"@ && r.1@ == "Настройки"@ && r.2@
            == "Показать / скрыть остров"@ && r.3@ == "Выход"@,
{
    if str_eq(lang, "en") {
        ("AI assistant", "Settings", "Show / hide island", "Quit")
    } else {
        ("AI-ассистент", "Настройки", "Показать / скрыть остров", "Выход")
    }
}

/// What a tray menu entry does.
#[derive(Debug, Clone, Copy, PartialEq, Eq, Structural)]
pub enum TrayAction {
    OpenAssistant,
    OpenSettings,
    ToggleIsland,
    Quit,
    Ignore,
}

/// The action of the tray menu entry with id `id`.
pub fn tray_action(id: &str) -> (r: TrayAction)
    ensures
        r == (if id@ == "assistant"@ {
            TrayAction::OpenAssistant
        } else if id@ == "settings"@ {
            TrayAction::OpenSettings
        } else if id@ == "toggle"@ {
            TrayAction::ToggleIsland
        } else if id@ == "quit"@ {
            TrayAction::Quit
        } else {
            TrayAction::Ignore
        }),
{
    if str_eq(id, "assistant") {
        TrayAction::OpenAssistant
    } else if str_eq(id, "settings") {
        TrayAction::OpenSettings
    } else if str_eq(id, "toggle") {
        TrayAction::ToggleIsland
    } else if str_eq(id, "quit") {
        TrayAction::Quit
    } else {
        TrayAction::Ignore
    }
}

/// How a request to close a window is answered.
#[derive(Debug, Clone, Copy, PartialEq, Eq, Structural)]
pub enum CloseAction {
    /// Keep the window alive: hide it and drop it from the visible set.
    Hide,
    /// Closing the island quits the whole app.
    ExitApp,
    /// Let the window close.
    Allow,
}

/// The settings and assistant panels hide instead of tearing down; closing
/// the island quits the app.
pub fn close_action(label: &str) -> (r: CloseAction)
    ensures
        r == (if label@ == "settings"@ || label@ == "assistant"@ {
            CloseAction::Hide
        } else if label@ == "island"@ {
            CloseAction::ExitApp
        } else {
            CloseAction::Allow
        }),
{
    if str_eq(label, "settings") || str_eq(label, "assistant") {
        CloseAction::Hide
    } else if str_eq(label, "island") {
        CloseAction::ExitApp
    } else {
        CloseAction::Allow
    }
}

// ---------------------------------------------------------------------------
// Saving the settings
// ---------------------------------------------------------------------------

/// What saving new settings has to do beyond storing them.
#[derive(Debug, Clone, Copy, PartialEq, Eq, Structural)]
pub struct SettingsChanges {
    /// Install or remove the startup shortcut (the requested flag differs
    /// from the stored one).
    pub reconcile_autostart: bool,
    /// Rebuild the tray menu in the new language.
    pub language_changed: bool,
}

/// Compare the stored settings with the requested ones.
pub fn settings_changes(
    stored_autostart: bool,
    stored_language: &str,
    requested_autostart: bool,
    requested_language: &str,
) -> (r: SettingsChanges)
    ensures
        r.reconcile_autostart == (stored_autostart != requested_autostart),
        r.language_changed == (stored_language@ != requested_language@),
{
    SettingsChanges {
        reconcile_autostart: stored_autostart != requested_autostart,
        language_changed: !str_eq(stored_language, requested_language),
    }
}

// ---------------------------------------------------------------------------
// Accent color
// ---------------------------------------------------------------------------

/// An upper-case hexadecimal digit.
pub open spec fn hex_digit(n: int) -> char {
    if n < 10 {
        (48 + n) as char
    } else {
        (55 + n) as char
    }
}

/// A byte as two upper-case hexadecimal digits (`{:02X}`).
pub open spec fn hex_byte(b: u8) -> Seq<char> {
    seq![hex_digit(b as int / 16), hex_digit(b as int % 16)]
}

/// `#RRGGBB` for a color.
pub open spec fn spec_hex_color(r: u8, g: u8, b: u8) -> Seq<char> {
    seq!['#'] + hex_byte(r) + hex_byte(g) + hex_byte(b)
}

pub(crate) fn hex_digit_exec(n: u8) -> (r: char)
    requires
        n < 16,
    ensures
        r == hex_digit(n as int),
{
    if n < 10 {
        (48 + n) as char
    } else {
        (55 + n) as char
    }
}

fn push_hex_byte(s: &mut String, b: u8)
    ensures
        final(s)@ == old(s)@ + hex_byte(b),
{
    s.push(hex_digit_exec(b / 16));
    s.push(hex_digit_exec(b % 16));
    assert(final(s)@ =~= old(s)@ + hex_byte(b));
}

/// A color as `#RRGGBB`, the form the system accent is reported in.
pub fn hex_color(r: u8, g: u8, b: u8) -> (s: String)
    ensures
        s@ == spec_hex_color(r, g, b),
{
    let mut s = String::new();
    s.push('#');
    push_hex_byte(&mut s, r);
    push_hex_byte(&mut s, g);
    push_hex_byte(&mut s, b);
    assert(s@ =~= spec_hex_color(r, g, b));
    s
}

/// The accent text is always seven characters: `#` and six upper-case hex
/// digits.
pub proof fn law_hex_color_shape(r: u8, g: u8, b: u8)
    ensures
        spec_hex_color(r, g, b).len() == 7,
        spec_hex_color(r, g, b)[0] == '#',
        forall|k: int| 1 <= k < 7 ==> {
            let c = #[trigger] spec_hex_color(r, g, b)[k];
            ('0' <= c && c <= '9') || ('A' <= c && c <= 'F')
        },
{
    let s = spec_hex_color(r, g, b);
    assert forall|k: int| 1 <= k < 7 implies {
        let c = #[trigger] s[k];
        ('0' <= c && c <= '9') || ('A' <= c && c <= 'F')
    } by {
        let byte = if k < 3 { r } else if k < 5 { g } else { b };
        let d = if k % 2 == 1 { byte as int / 16 } else { byte as int % 16 };
        assert(0 <= d < 16);
        assert(s[k] == hex_digit(d));
    }
}

} // verus!
