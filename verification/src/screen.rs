//! Screen decisions: the sleep timeout that keeps the display on, and when
//! a resolution change is turned into full screen.

use vstd::prelude::*;

verus! {

/// The engine's sleep timeout: never sleep (`-1`) or the system setting
/// (`-2`).
pub fn sleep_timeout_value(disabled: bool) -> (v: i32)
    ensures
        v == (if disabled {
            -1i32
        } else {
            -2i32
        }),
{
    if disabled {
        -1
    } else {
        -2
    }
}

/// The full-screen size that a resolution change of `width` x `height` is
/// fitted into: the configured size when both sides are set, else the
/// monitor's current resolution; only when the change has positive sides and
/// the same orientation as that size. The new resolution is the requested
/// aspect ratio fitted into it.
pub open spec fn auto_full_screen_target(
    width: i32,
    height: i32,
    configured: (i32, i32),
    current: (i32, i32),
) -> Option<(i32, i32)> {
    let preferred = if configured.0 > 0 && configured.1 > 0 {
        configured
    } else {
        current
    };
    if width > 0 && height > 0 && (width > height) == (preferred.0 > preferred.1) {
        Some(preferred)
    } else {
        None
    }
}

/// Decides whether a resolution change goes full screen, and into which
/// size.
pub fn apply_auto_full_screen(
    width: i32,
    height: i32,
    configured: (i32, i32),
    current: (i32, i32),
) -> (r: Option<(i32, i32)>)
    ensures
        r == auto_full_screen_target(width, height, configured, current),
{
    let preferred = if configured.0 > 0 && configured.1 > 0 {
        configured
    } else {
        current
    };
    if width > 0 && height > 0 && (width > height) == (preferred.0 > preferred.1) {
        Some(preferred)
    } else {
        None
    }
}

} // verus!
