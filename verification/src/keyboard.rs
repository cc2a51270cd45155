//! The decision behind the system-wide keyboard interrupt gate: which raw
//! key events are swallowed instead of forwarded.

use vstd::prelude::*;

verus! {

/// The filter stage at which a keyboard event must be processed.
pub const HOOK_CODE_ACTION: i32 = 0;

/// The key-down message identifier.
pub const MSG_KEY_DOWN: u32 = 0x100;

/// The system-key-down message identifier.
pub const MSG_SYS_KEY_DOWN: u32 = 0x104;

/// The virtual-key code of the delete key.
pub const VK_DELETE_CODE: u32 = 0x2E;

/// Whether the virtual-key code is the delete key.
pub fn is_delete(vk_code: u32) -> (r: bool)
    ensures
        r == (vk_code == VK_DELETE_CODE),
{
    vk_code == VK_DELETE_CODE
}

/// When the filter swallows an event: an actionable key-down of the
/// delete key while a control and an alt modifier are both held.
pub open spec fn spec_swallow_key_event(
    code: i32,
    message: u32,
    vk_code: u32,
    ctrl_down: bool,
    alt_down: bool,
) -> bool {
    &&& code == HOOK_CODE_ACTION
    &&& (message == MSG_KEY_DOWN || message == MSG_SYS_KEY_DOWN)
    &&& vk_code == VK_DELETE_CODE
    &&& ctrl_down
    &&& alt_down
}

/// Decides whether the keyboard filter swallows this event or forwards it
/// to the next filter in the chain. The modifier flags are the live key
/// state, read by the caller at event time.
pub fn should_swallow_key_event(
    code: i32,
    message: u32,
    vk_code: u32,
    ctrl_down: bool,
    alt_down: bool,
) -> (r: bool)
    ensures
        r == spec_swallow_key_event(code, message, vk_code, ctrl_down, alt_down),
{
    code == HOOK_CODE_ACTION && (message == MSG_KEY_DOWN || message == MSG_SYS_KEY_DOWN)
        && is_delete(vk_code) && ctrl_down && alt_down
}

} // verus!
