//! The session state: the single record every input event reads and
//! mutates, together with the tamper-warning timer and the authentication
//! dispatch.

use vstd::prelude::*;

use crate::capture::ScreenImage;
use crate::game::{spec_handle_char_rel, spec_tick_rel, spec_toggle_rel, spec_is_target_char,
    MiniGameState};
use crate::settings::Settings;
use crate::text::{is_ascii_char, is_ascii_control, spec_is_ascii_char, spec_is_ascii_control,
    string_pop, string_push};

verus! {

/// How long an armed tamper warning stays visible.
pub const WARNING_DURATION_MS: u64 = 10_000;

/// The virtual-key code that toggles the mini-game.
pub const VK_GAME_TOGGLE: u32 = 0x47;

/// The virtual-key code of the escape key.
pub const VK_ESCAPE_KEY: u32 = 0x1B;

/// The aggregate state of one lock session, shared by every input event.
#[derive(Debug)]
pub struct AppState {
    pub width: i32,
    pub height: i32,
    pub pixels: Vec<u8>,
    pub password: String,
    pub input: String,
    pub warning_since: Option<u64>,
    pub settings: Settings,
    pub game: MiniGameState,
}

impl AppState {
    /// A well-formed session state: plausible dimensions, four bytes per
    /// pixel, and a mini-game target from the target alphabet.
    pub open spec fn wf(self) -> bool {
        &&& self.width >= 0
        &&& self.height >= 0
        &&& self.pixels@.len() == self.width * self.height * 4
        &&& spec_is_target_char(self.game.target)
    }
}

/// The derived warning predicate: armed, and the duration has not yet
/// elapsed. An arming instant in the future counts as just armed.
pub open spec fn spec_warning_active(armed: Option<u64>, now_ms: u64) -> bool {
    match armed {
        Some(t) => now_ms < t + WARNING_DURATION_MS,
        None => false,
    }
}

/// The fields an input event never touches: the frozen image, the password
/// and the configuration snapshot.
pub open spec fn spec_core_unchanged(pre: AppState, post: AppState) -> bool {
    &&& post.width == pre.width
    &&& post.height == pre.height
    &&& post.pixels == pre.pixels
    &&& post.password == pre.password
    &&& post.settings == pre.settings
}

/// Arms the tamper warning at the given instant; nothing else changes.
pub fn arm_warning(state: &mut AppState, now_ms: u64)
    ensures
        final(state).warning_since == Some(now_ms),
        spec_core_unchanged(*old(state), *final(state)),
        final(state).input == old(state).input,
        final(state).game == old(state).game,
{
    state.warning_since = Some(now_ms);
}

/// Arms the tamper warning in reaction to suspicious activity; the same
/// transition as `arm_warning`.
pub fn mark_warning(state: &mut AppState, now_ms: u64)
    ensures
        final(state).warning_since == Some(now_ms),
        spec_core_unchanged(*old(state), *final(state)),
        final(state).input == old(state).input,
        final(state).game == old(state).game,
{
    arm_warning(state, now_ms);
}

/// Whether the tamper warning is currently displayed.
pub fn warning_active(state: &AppState, now_ms: u64) -> (r: bool)
    ensures
        r == spec_warning_active(state.warning_since, now_ms),
{
    match state.warning_since {
        Some(t) => {
            if now_ms >= t {
                now_ms - t < WARNING_DURATION_MS
            } else {
                true
            }
        },
        None => false,
    }
}

impl AppState {
    /// The state at session start: the captured image, an empty input
    /// buffer, no warning, and a mini-game that is active exactly when the
    /// configuration asks for it.
    pub fn new(image: ScreenImage, settings: Settings, now_ms: u64) -> (r: Self)
        ensures
            r.width == image.width,
            r.height == image.height,
            r.pixels == image.pixels,
            r.password@ == settings.password@,
            r.input@ == Seq::<char>::empty(),
            r.warning_since is None,
            r.settings == settings,
            r.game.active == settings.minigame_autostart,
            spec_is_target_char(r.game.target),
            r.game.last_update == now_ms,
            r.game.score == 0,
            r.game.misses == 0,
            image.wf() ==> r.wf(),
    {
        let autostart = settings.minigame_autostart;
        let password = settings.password.clone();
        AppState {
            width: image.width,
            height: image.height,
            pixels: image.pixels,
            password,
            input: String::new(),
            warning_since: None,
            settings,
            game: MiniGameState::new(autostart, now_ms),
        }
    }

    /// Dispatches one typed character. The character is first offered to the
    /// mini-game, which owns input while active. Otherwise: backspace pops
    /// the input buffer (a no-op when empty), enter compares the buffer to
    /// the password — a match unlocks the session and a mismatch clears the
    /// buffer and arms the warning — escape is ignored, printable ASCII is
    /// appended, and everything else is dropped.
    pub fn handle_char(&mut self, ch: char, now_ms: u64) -> (unlock: bool)
        ensures
            old(self).wf() ==> final(self).wf(),
            spec_core_unchanged(*old(self), *final(self)),
            unlock == (!old(self).game.active && ch == '\r' && old(self).input@ == old(
                self,
            ).password@),
            old(self).game.active ==> {
                &&& spec_handle_char_rel(old(self).game, final(self).game, ch, now_ms)
                &&& final(self).input == old(self).input
                &&& final(self).warning_since == old(self).warning_since
            },
            !old(self).game.active ==> {
                &&& final(self).game == old(self).game
                &&& if ch == '\u{8}' {
                    &&& final(self).input@ == if old(self).input@.len() > 0 {
                        old(self).input@.drop_last()
                    } else {
                        old(self).input@
                    }
                    &&& final(self).warning_since == old(self).warning_since
                } else if ch == '\r' {
                    if old(self).input@ == old(self).password@ {
                        *final(self) == *old(self)
                    } else {
                        &&& final(self).input@ == Seq::<char>::empty()
                        &&& final(self).warning_since == Some(now_ms)
                    }
                } else if ch == '\u{1b}' {
                    *final(self) == *old(self)
                } else if spec_is_ascii_char(ch) && !spec_is_ascii_control(ch) {
                    &&& final(self).input@ == old(self).input@.push(ch)
                    &&& final(self).warning_since == old(self).warning_since
                } else {
                    *final(self) == *old(self)
                }
            },
    {
        let consumed = self.game.handle_char(ch, now_ms);
        if consumed {
            return false;
        }
        if ch == '\u{8}' {
            let _ = string_pop(&mut self.input);
            false
        } else if ch == '\r' {
            if self.input == self.password {
                true
            } else {
                self.input = String::new();
                arm_warning(self, now_ms);
                false
            }
        } else if ch == '\u{1b}' {
            false
        } else {
            if is_ascii_char(ch) && !is_ascii_control(ch) {
                string_push(&mut self.input, ch);
            }
            false
        }
    }

    /// Dispatches one key-down event: the toggle key flips the mini-game,
    /// escape stops an active game, and every other key is ignored here.
    pub fn handle_keydown(&mut self, vk_code: u32, now_ms: u64)
        ensures
            old(self).wf() ==> final(self).wf(),
            spec_core_unchanged(*old(self), *final(self)),
            final(self).input == old(self).input,
            final(self).warning_since == old(self).warning_since,
            vk_code == VK_GAME_TOGGLE ==> spec_toggle_rel(old(self).game, final(self).game, now_ms),
            vk_code == VK_ESCAPE_KEY ==> final(self).game == (MiniGameState {
                active: false,
                ..old(self).game
            }),
            vk_code != VK_GAME_TOGGLE && vk_code != VK_ESCAPE_KEY ==> final(self).game == old(
                self,
            ).game,
    {
        if vk_code == VK_GAME_TOGGLE {
            self.game.toggle(now_ms);
        } else if vk_code == VK_ESCAPE_KEY {
            if self.game.active {
                self.game.stop();
            }
        }
    }

    /// A pointer movement while locked is a tamper signal: it arms the
    /// warning. Re-centering the pointer is the window glue's concern.
    pub fn handle_pointer_move(&mut self, now_ms: u64)
        ensures
            old(self).wf() ==> final(self).wf(),
            spec_core_unchanged(*old(self), *final(self)),
            final(self).input == old(self).input,
            final(self).game == old(self).game,
            final(self).warning_since == Some(now_ms),
    {
        mark_warning(self, now_ms);
    }

    /// The periodic timer advances the mini-game; authentication and the
    /// warning are untouched.
    pub fn handle_tick(&mut self, now_ms: u64)
        ensures
            old(self).wf() ==> final(self).wf(),
            spec_core_unchanged(*old(self), *final(self)),
            final(self).input == old(self).input,
            final(self).warning_since == old(self).warning_since,
            spec_tick_rel(old(self).game, final(self).game, now_ms),
    {
        self.game.tick(now_ms);
    }
}

/// A fresh, never-armed warning is inactive at every instant.
pub proof fn lemma_warning_inactive_when_unarmed(now_ms: u64)
    ensures
        !spec_warning_active(Option::None, now_ms),
{
}

/// The warning is active the moment it is armed.
pub proof fn lemma_warning_active_when_armed(t: u64)
    ensures
        spec_warning_active(Some(t), t),
{
}

/// Once the full duration has elapsed since arming, the warning is inactive.
pub proof fn lemma_warning_expires(t: u64, now_ms: u64)
    requires
        now_ms >= t + WARNING_DURATION_MS,
    ensures
        !spec_warning_active(Some(t), now_ms),
{
}

/// Re-arming resets the countdown: at an instant where the first arming
/// would already have expired, the warning is still active as long as the
/// duration since the second arming has not elapsed.
pub proof fn lemma_warning_rearm_resets(t1: u64, t2: u64, now_ms: u64)
    requires
        now_ms >= t1 + WARNING_DURATION_MS,
        now_ms < t2 + WARNING_DURATION_MS,
    ensures
        !spec_warning_active(Some(t1), now_ms),
        spec_warning_active(Some(t2), now_ms),
{
}

} // verus!
