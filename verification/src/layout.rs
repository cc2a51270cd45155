//! Sizing rule for the unlock panel.

use vstd::prelude::*;

verus! {

/// Picks the size of one panel dimension: the preferred size, capped by the
/// available room, but never below the minimum as long as the room allows the
/// minimum; with cramped room the whole (non-negative) room is used.
pub fn choose_dimension(preferred: i32, available: i32, min_size: i32) -> (r: i32)
    ensures
        available > min_size ==> r == if preferred <= available {
            if preferred >= min_size {
                preferred
            } else {
                min_size
            }
        } else {
            available
        },
        available <= min_size ==> r == if available >= 0 {
            available
        } else {
            0
        },
{
    let limited = if preferred < available {
        preferred
    } else {
        available
    };
    if available > min_size {
        if limited > min_size {
            limited
        } else {
            min_size
        }
    } else {
        if available > 0 {
            available
        } else {
            0
        }
    }
}

} // verus!
