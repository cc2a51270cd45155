//! The resolved configuration of a lock session and its fallback rules.

use vstd::prelude::*;

use crate::text::{is_space, spec_is_space};

verus! {

/// The blur radius used when the stored one is missing or zero.
pub const DEFAULT_BLUR_RADIUS: usize = 8;

/// Which monitors receive an opaque overlay while the session is locked.
#[derive(Clone, Copy, Debug, PartialEq, Eq, Structural)]
pub enum MonitorBlankingMode {
    /// No monitor is blanked.
    Off,
    /// Every enumerated monitor is blanked.
    All,
    /// Only the monitors named in the disable list are blanked.
    Custom,
}

impl Default for MonitorBlankingMode {
    fn default() -> (r: Self)
        ensures
            r == MonitorBlankingMode::Custom,
    {
        MonitorBlankingMode::Custom
    }
}

/// The resolved settings record handed to the session at start.
#[derive(Debug)]
pub struct Settings {
    pub password: String,
    pub disable_monitors: Vec<String>,
    pub monitor_mode: MonitorBlankingMode,
    pub open_settings_on_startup: bool,
    pub dismiss_notifications_on_startup: bool,
    pub blur_radius: usize,
    pub blur_enabled: bool,
    pub text_on_all_monitors: bool,
    pub minigame_autostart: bool,
}

/// The built-in password used when the stored one is blank.
pub open spec fn spec_default_password() -> Seq<char> {
    "dwmlock"@
}

pub fn default_password() -> (r: String)
    ensures
        r@ == spec_default_password(),
{
    String::from_str("dwmlock")
}

/// The default disable list: the second display.
pub fn default_disable_monitors() -> (r: Vec<String>)
    ensures
        r@.len() == 1,
        r@[0]@ == "DISPLAY2"@,
{
    let mut r: Vec<String> = Vec::new();
    r.push(String::from_str("DISPLAY2"));
    r
}

pub fn default_dismiss_notifications() -> (r: bool)
    ensures
        r,
{
    true
}

pub fn default_blur_radius() -> (r: usize)
    ensures
        r == DEFAULT_BLUR_RADIUS,
{
    DEFAULT_BLUR_RADIUS
}

/// What `Settings::default` returns.
pub open spec fn spec_is_default_settings(s: Settings) -> bool {
    &&& s.password@ == spec_default_password()
    &&& s.disable_monitors@.len() == 1
    &&& s.disable_monitors@[0]@ == "DISPLAY2"@
    &&& s.monitor_mode == MonitorBlankingMode::Custom
    &&& !s.open_settings_on_startup
    &&& s.dismiss_notifications_on_startup
    &&& s.blur_radius == DEFAULT_BLUR_RADIUS
    &&& s.blur_enabled
    &&& !s.text_on_all_monitors
    &&& !s.minigame_autostart
}

impl Default for Settings {
    fn default() -> (r: Self)
        ensures
            spec_is_default_settings(r),
    {
        Settings {
            password: default_password(),
            disable_monitors: default_disable_monitors(),
            monitor_mode: MonitorBlankingMode::Custom,
            open_settings_on_startup: false,
            dismiss_notifications_on_startup: default_dismiss_notifications(),
            blur_radius: default_blur_radius(),
            blur_enabled: true,
            text_on_all_monitors: false,
            minigame_autostart: false,
        }
    }
}

impl Clone for Settings {
    fn clone(&self) -> (r: Self)
        ensures
            r.password@ == self.password@,
            r.disable_monitors@.len() == self.disable_monitors@.len(),
            forall|i: int|
                0 <= i < self.disable_monitors@.len() ==> r.disable_monitors@[i]@
                    == self.disable_monitors@[i]@,
            r.monitor_mode == self.monitor_mode,
            r.open_settings_on_startup == self.open_settings_on_startup,
            r.dismiss_notifications_on_startup == self.dismiss_notifications_on_startup,
            r.blur_radius == self.blur_radius,
            r.blur_enabled == self.blur_enabled,
            r.text_on_all_monitors == self.text_on_all_monitors,
            r.minigame_autostart == self.minigame_autostart,
    {
        let mut names: Vec<String> = Vec::new();
        let mut i: usize = 0;
        while i < self.disable_monitors.len()
            invariant
                i <= self.disable_monitors@.len(),
                names@.len() == i,
                forall|j: int|
                    0 <= j < i ==> names@[j]@ == self.disable_monitors@[j]@,
            decreases self.disable_monitors@.len() - i,
        {
            names.push(self.disable_monitors[i].clone());
            i = i + 1;
        }
        Settings {
            password: self.password.clone(),
            disable_monitors: names,
            monitor_mode: self.monitor_mode,
            open_settings_on_startup: self.open_settings_on_startup,
            dismiss_notifications_on_startup: self.dismiss_notifications_on_startup,
            blur_radius: self.blur_radius,
            blur_enabled: self.blur_enabled,
            text_on_all_monitors: self.text_on_all_monitors,
            minigame_autostart: self.minigame_autostart,
        }
    }
}

/// A string that `str::trim` would reduce to nothing.
pub open spec fn spec_is_blank(s: Seq<char>) -> bool {
    forall|i: int| 0 <= i < s.len() ==> spec_is_space(s[i])
}

/// Whether the string holds whitespace only.
pub fn is_blank(s: &String) -> (r: bool)
    ensures
        r == spec_is_blank(s@),
{
    let n = s.as_str().unicode_len();
    let mut i: usize = 0;
    while i < n
        invariant
            n == s@.len(),
            i <= n,
            forall|j: int| 0 <= j < i ==> spec_is_space(s@[j]),
        decreases n - i,
    {
        if !is_space(s.as_str().get_char(i)) {
            return false;
        }
        i = i + 1;
    }
    true
}

/// The fallback rules applied to freshly loaded settings: a blank password
/// falls back to the built-in one, a zero blur radius to the default radius.
/// Everything else is kept as stored.
pub fn sanitize_settings(s: &mut Settings)
    ensures
        final(s).password@ == if spec_is_blank(old(s).password@) {
            spec_default_password()
        } else {
            old(s).password@
        },
        final(s).blur_radius == if old(s).blur_radius == 0 {
            DEFAULT_BLUR_RADIUS as int
        } else {
            old(s).blur_radius as int
        },
        final(s).disable_monitors == old(s).disable_monitors,
        final(s).monitor_mode == old(s).monitor_mode,
        final(s).open_settings_on_startup == old(s).open_settings_on_startup,
        final(s).dismiss_notifications_on_startup == old(s).dismiss_notifications_on_startup,
        final(s).blur_enabled == old(s).blur_enabled,
        final(s).text_on_all_monitors == old(s).text_on_all_monitors,
        final(s).minigame_autostart == old(s).minigame_autostart,
{
    if is_blank(&s.password) {
        s.password = default_password();
    }
    if s.blur_radius == 0 {
        s.blur_radius = default_blur_radius();
    }
}

/// The fallback used when the settings store is missing or unreadable:
/// the default settings record. Persisting it is the caller's concern.
pub fn ensure_default() -> (r: Settings)
    ensures
        spec_is_default_settings(r),
{
    Settings::default()
}

/// The position of a blanking mode in the settings dialog's option list.
pub fn monitor_mode_option_index(mode: MonitorBlankingMode) -> (r: Option<usize>)
    ensures
        r == Some(
            match mode {
                MonitorBlankingMode::Off => 0usize,
                MonitorBlankingMode::All => 1usize,
                MonitorBlankingMode::Custom => 2usize,
            },
        ),
{
    match mode {
        MonitorBlankingMode::Off => Some(0),
        MonitorBlankingMode::All => Some(1),
        MonitorBlankingMode::Custom => Some(2),
    }
}

/// The blanking mode at a position of the dialog's option list, if any.
pub fn monitor_mode_from_index(index: isize) -> (r: Option<MonitorBlankingMode>)
    ensures
        r == if index == 0 {
            Some(MonitorBlankingMode::Off)
        } else if index == 1 {
            Some(MonitorBlankingMode::All)
        } else if index == 2 {
            Some(MonitorBlankingMode::Custom)
        } else {
            Option::<MonitorBlankingMode>::None
        },
{
    if index == 0 {
        Some(MonitorBlankingMode::Off)
    } else if index == 1 {
        Some(MonitorBlankingMode::All)
    } else if index == 2 {
        Some(MonitorBlankingMode::Custom)
    } else {
        None
    }
}

/// The blur radius accepted from the settings dialog: clamped to 1..=64.
pub fn clamp_blur_radius(parsed: usize) -> (r: usize)
    ensures
        r == if parsed < 1 {
            1int
        } else if parsed > 64 {
            64int
        } else {
            parsed as int
        },
{
    if parsed < 1 {
        1
    } else if parsed > 64 {
        64
    } else {
        parsed
    }
}

} // verus!
