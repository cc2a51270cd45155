//! The optional typing mini-game that can own character input while the
//! session is locked.

use vstd::prelude::*;

use crate::text::{lower_char, spec_lower_char, spec_upper_char, spec_is_ascii_char, is_ascii_char,
    string_push, upper_char};

verus! {

/// An idle player is penalized after this long without a correct hit.
pub const GAME_TICK_TIMEOUT_MS: u64 = 5000;

/// The target alphabet: lowercase letters and digits.
pub open spec fn spec_is_target_char(c: char) -> bool {
    ('a' <= c && c <= 'z') || ('0' <= c && c <= '9')
}

/// Relies on `rand::Rng::gen_range` over `0..bound` (a uniformly random
/// index below the bound) and `rand::thread_rng`.
#[verifier::external_body]
fn random_index(bound: usize) -> (r: usize)
    requires
        bound > 0,
    ensures
        r < bound,
{
    rand::Rng::gen_range(&mut rand::thread_rng(), 0..bound)
}

/// A uniformly random character of the target alphabet.
fn random_target() -> (c: char)
    ensures
        spec_is_target_char(c),
{
    let i = random_index(36);
    if i < 26 {
        (('a' as u8) + (i as u8)) as char
    } else {
        (('0' as u8) + ((i - 26) as u8)) as char
    }
}

/// The typing-drill state machine.
#[derive(Clone, Copy, Debug)]
pub struct MiniGameState {
    pub active: bool,
    pub target: char,
    pub last_update: u64,
    pub score: u32,
    pub misses: u32,
}

/// Whether a typed character counts as a hit on the current target:
/// case-insensitive ASCII equality.
pub open spec fn spec_is_hit(ch: char, target: char) -> bool {
    spec_lower_char(ch) == spec_lower_char(target)
}

/// How `handle_char` transforms the game state.
pub open spec fn spec_handle_char_rel(
    pre: MiniGameState,
    post: MiniGameState,
    ch: char,
    now_ms: u64,
) -> bool {
    if !pre.active {
        post == pre
    } else if spec_is_hit(ch, pre.target) {
        &&& post.active
        &&& spec_is_target_char(post.target)
        &&& post.last_update == now_ms
        &&& post.score == if pre.score < u32::MAX {
            pre.score + 1
        } else {
            pre.score as int
        }
        &&& post.misses == pre.misses
    } else if spec_is_ascii_char(ch) {
        post == MiniGameState {
            misses: if pre.misses < u32::MAX {
                (pre.misses + 1) as u32
            } else {
                pre.misses
            },
            ..pre
        }
    } else {
        post == pre
    }
}

/// How `toggle` transforms the game state.
pub open spec fn spec_toggle_rel(pre: MiniGameState, post: MiniGameState, now_ms: u64) -> bool {
    &&& post.active == !pre.active
    &&& post.last_update == now_ms
    &&& post.score == pre.score
    &&& post.misses == pre.misses
    &&& post.active ==> spec_is_target_char(post.target)
    &&& !post.active ==> post.target == pre.target
}

/// How `tick` transforms the game state.
pub open spec fn spec_tick_rel(pre: MiniGameState, post: MiniGameState, now_ms: u64) -> bool {
    if pre.active && now_ms >= pre.last_update + GAME_TICK_TIMEOUT_MS {
        &&& post.active
        &&& spec_is_target_char(post.target)
        &&& post.last_update == now_ms
        &&& post.score == pre.score
        &&& post.misses == if pre.misses < u32::MAX {
            (pre.misses + 1) as int
        } else {
            pre.misses as int
        }
    } else {
        post == pre
    }
}

impl MiniGameState {
    /// A fresh game: zero score and misses, a random target, and the given
    /// activity flag and clock reading.
    pub fn new(active: bool, now_ms: u64) -> (g: Self)
        ensures
            g.active == active,
            spec_is_target_char(g.target),
            g.last_update == now_ms,
            g.score == 0,
            g.misses == 0,
    {
        MiniGameState {
            active,
            target: random_target(),
            last_update: now_ms,
            score: 0,
            misses: 0,
        }
    }

    /// Flips the game on or off. Entering the active state rolls a new
    /// random target; scores and misses are kept either way.
    pub fn toggle(&mut self, now_ms: u64)
        ensures
            spec_toggle_rel(*old(self), *final(self), now_ms),
    {
        self.active = !self.active;
        if self.active {
            self.target = random_target();
        }
        self.last_update = now_ms;
    }

    /// Forces the game off without toggling; nothing else changes.
    pub fn stop(&mut self)
        ensures
            *final(self) == (MiniGameState { active: false, ..*old(self) }),
    {
        self.active = false;
    }

    /// Offers a typed character to the game. While active the game owns
    /// character input and always consumes it: a case-insensitive hit on the
    /// target scores and rolls a new target, any other ASCII character is a
    /// miss, and non-ASCII input is ignored. While inactive nothing changes
    /// and the character is not consumed.
    pub fn handle_char(&mut self, ch: char, now_ms: u64) -> (consumed: bool)
        ensures
            consumed == old(self).active,
            spec_handle_char_rel(*old(self), *final(self), ch, now_ms),
    {
        if !self.active {
            return false;
        }
        if lower_char(ch) == lower_char(self.target) {
            self.score = if self.score < u32::MAX {
                self.score + 1
            } else {
                self.score
            };
            self.target = random_target();
            self.last_update = now_ms;
        } else if is_ascii_char(ch) {
            self.misses = if self.misses < u32::MAX {
                self.misses + 1
            } else {
                self.misses
            };
        }
        true
    }

    /// The periodic timer: an active game that saw no correct hit for the
    /// timeout counts a miss, rolls a new target and restarts its window.
    pub fn tick(&mut self, now_ms: u64)
        ensures
            spec_tick_rel(*old(self), *final(self), now_ms),
    {
        if self.active && now_ms >= GAME_TICK_TIMEOUT_MS && now_ms - GAME_TICK_TIMEOUT_MS
            >= self.last_update {
            self.misses = if self.misses < u32::MAX {
                self.misses + 1
            } else {
                self.misses
            };
            self.target = random_target();
            self.last_update = now_ms;
        }
    }

    /// The target as shown to the player: one character, uppercased.
    pub fn target_display(&self) -> (r: String)
        ensures
            r@.len() == 1,
            r@[0] == spec_upper_char(self.target),
    {
        let mut r = String::new();
        string_push(&mut r, upper_char(self.target));
        r
    }
}

} // verus!
