//! Non-secret UI preferences: the one thing that is stored unencrypted, because the
//! theme is needed before anything can be decrypted. Nothing confidential belongs
//! here.

use vstd::prelude::*;

verus! {

/// The newest layout of the preferences that this build understands.
pub const PREFS_VERSION: u16 = 1;

/// The largest preferences file that is read.
pub const MAX_PREFS_LEN: u64 = 65_536;

/// Which colours to use.
#[derive(Clone, Copy, Debug, PartialEq, Eq, Structural)]
pub enum ThemeChoice {
    /// Those of the operating system.
    System,
    Light,
    Dark,
}

impl Default for ThemeChoice {
    /// The operating system decides.
    fn default() -> (t: ThemeChoice)
        ensures
            t == ThemeChoice::System,
    {
        ThemeChoice::System
    }
}

impl ThemeChoice {
    /// Every choice, in the order they are offered.
    pub const ALL: [ThemeChoice; 3] = [ThemeChoice::System, ThemeChoice::Light, ThemeChoice::Dark];

    /// The label of the choice.
    pub fn label(self) -> (t: &'static str)
        ensures
            t@ == (match self {
                ThemeChoice::System => "System"@,
                ThemeChoice::Light => "Light"@,
                ThemeChoice::Dark => "Dark"@,
            }),
    {
        match self {
            ThemeChoice::System => "System",
            ThemeChoice::Light => "Light",
            ThemeChoice::Dark => "Dark",
        }
    }

    /// The choice that the switch in the sidebar leads to.
    pub fn toggled(dark: bool) -> (t: ThemeChoice)
        ensures
            t == (if dark {
                ThemeChoice::Light
            } else {
                ThemeChoice::Dark
            }),
    {
        if dark {
            ThemeChoice::Light
        } else {
            ThemeChoice::Dark
        }
    }
}

/// Every choice is offered, and none twice.
pub proof fn law_every_theme_is_offered_once(t: ThemeChoice)
    ensures
        ThemeChoice::ALL@.contains(t),
        ThemeChoice::ALL@.no_duplicates(),
{
    let k: int = match t {
        ThemeChoice::System => 0,
        ThemeChoice::Light => 1,
        ThemeChoice::Dark => 2,
    };
    assert(ThemeChoice::ALL@[k] == t);
}

/// The preferences.
#[derive(Clone, Copy, Debug, PartialEq, Eq, Structural)]
pub struct Prefs {
    pub version: u16,
    pub theme: ThemeChoice,
}

impl Default for Prefs {
    /// The preferences of a fresh installation.
    fn default() -> (p: Prefs)
        ensures
            p == (Prefs { version: PREFS_VERSION, theme: ThemeChoice::System }),
    {
        Prefs { version: PREFS_VERSION, theme: ThemeChoice::System }
    }
}

impl Prefs {
    /// Whether a preferences file of `len` bytes is read at all.
    pub fn is_readable(len: u64) -> (r: bool)
        ensures
            r == (len <= MAX_PREFS_LEN),
    {
        len <= MAX_PREFS_LEN
    }

    /// The preferences to use, given what the file held, if it could be read. A file
    /// of a newer build, like a damaged or missing one, counts as none.
    pub fn accepted(stored: Option<Prefs>) -> (p: Prefs)
        ensures
            p == (if stored is Some && stored->0.version <= PREFS_VERSION {
                stored->0
            } else {
                Prefs { version: PREFS_VERSION, theme: ThemeChoice::System }
            }),
    {
        match stored {
            Some(p) => if p.version <= PREFS_VERSION {
                p
            } else {
                Prefs::default()
            },
            None => Prefs::default(),
        }
    }
}

/// Preferences that this build understands are used as they were stored; those of a newer
/// build, and missing ones, give way to those of a fresh installation.
pub proof fn law_stored_preferences_are_kept(stored: Option<Prefs>, len: u64, p: Prefs, read: bool)
    requires
        call_ensures(Prefs::accepted, (stored,), p),
        call_ensures(Prefs::is_readable, (len,), read),
    ensures
        stored is Some && stored->0.version <= 1 ==> p == stored->0,
        stored is None || stored->0.version > 1 ==> p.theme == ThemeChoice::System && p.version
            == 1,
        read <==> len <= 64 * 1024,
{
}

/// The switch always leads to the other palette.
pub proof fn law_the_switch_leads_to_the_other_theme(dark: bool, t: ThemeChoice)
    requires
        call_ensures(ThemeChoice::toggled, (dark,), t),
    ensures
        dark <==> t == ThemeChoice::Light,
        t != ThemeChoice::System,
{
}

} // verus!
