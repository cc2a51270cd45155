//! Recognizing notification windows by their class name and title.

use vstd::prelude::*;

use crate::text::{chars_of, contains_chars, lower_chars, spec_contains_seq, spec_lower_seq};

verus! {

/// The rule for spotting a notification window: its lowercased class name
/// or title carries one of the known notification markers.
pub open spec fn spec_looks_like_notification(class_name: Seq<char>, title: Seq<char>) -> bool {
    let c = spec_lower_seq(class_name);
    let t = spec_lower_seq(title);
    ||| spec_contains_seq(c, "toast"@)
    ||| spec_contains_seq(c, "notification"@)
    ||| (spec_contains_seq(c, "corewindow"@) && spec_contains_seq(t, "notification"@))
    ||| spec_contains_seq(t, "notification"@)
    ||| spec_contains_seq(t, "action center"@)
}

/// Whether a window looks like a notification or action-center popup that
/// should be dismissed before the screen is locked.
pub fn looks_like_notification(class_name: &str, title: &str) -> (r: bool)
    ensures
        r == spec_looks_like_notification(class_name@, title@),
{
    let class = lower_chars(&chars_of(class_name));
    let title_lower = lower_chars(&chars_of(title));
    let toast = chars_of("toast");
    let notification = chars_of("notification");
    let corewindow = chars_of("corewindow");
    let action_center = chars_of("action center");
    contains_chars(&class, &toast) || contains_chars(&class, &notification) || (contains_chars(
        &class,
        &corewindow,
    ) && contains_chars(&title_lower, &notification)) || contains_chars(
        &title_lower,
        &notification,
    ) || contains_chars(&title_lower, &action_center)
}

} // verus!
