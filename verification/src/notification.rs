//! When a terminal-requested desktop notification surfaces, and under which
//! title.

use vstd::prelude::*;
use vstd::string::*;

verus! {

/// Whether a terminal-requested notification should surface: it is
/// suppressed only for the window that actually holds OS focus; with no
/// window focused (the app in the background) it always surfaces.
pub fn should_notify(os_focused: Option<u64>, target: u64) -> (r: bool)
    ensures
        r == (os_focused != Some(target)),
{
    match os_focused {
        Some(f) => f != target,
        None => true,
    }
}

/// The title to display: the requested one when non-empty, else `"noa"`.
pub fn notification_title<'a>(title: Option<&'a str>) -> (r: &'a str)
    ensures
        r@ == (match title {
            Some(t) => if t@.len() > 0 {
                t@
            } else {
                "noa"@
            },
            None => "noa"@,
        }),
{
    match title {
        Some(t) => {
            if !t.is_empty() {
                t
            } else {
                "noa"
            }
        },
        None => "noa",
    }
}

} // verus!
