//! How the settings editor normalises what was typed or switched: an emptied
//! optional text unsets the setting, a blank index address falls back to the
//! default, the update interval is edited in minutes, and switching text
//! debugging off switches off its parts.

use vstd::prelude::*;
use crate::text::chars_of;

verus! {

/// An optional text setting after its field was edited: empty unsets it.
pub fn optional_text(text: String) -> (r: Option<String>)
    ensures
        r == (if text@.len() == 0 {
            None
        } else {
            Some(text)
        }),
{
    if text.as_str().is_empty() {
        None
    } else {
        Some(text)
    }
}

/// A character with Unicode's `White_Space` property, which `char::is_whitespace`
/// and `str::trim` go by.
pub open spec fn is_white_space(c: char) -> bool {
    let u = c as u32;
    (0x9 <= u <= 0xd) || u == 0x20 || u == 0x85 || u == 0xa0 || u == 0x1680 || (0x2000 <= u
        <= 0x200a) || u == 0x2028 || u == 0x2029 || u == 0x202f || u == 0x205f || u == 0x3000
}

/// Nothing but white space, which is when `str::trim` leaves nothing.
pub open spec fn is_blank(s: Seq<char>) -> bool {
    forall|i: int| 0 <= i < s.len() ==> #[trigger] is_white_space(s[i])
}

fn white_space(c: char) -> (r: bool)
    ensures
        r == is_white_space(c),
{
    let u = c as u32;
    (0x9 <= u && u <= 0xd) || u == 0x20 || u == 0x85 || u == 0xa0 || u == 0x1680 || (0x2000 <= u
        && u <= 0x200a) || u == 0x2028 || u == 0x2029 || u == 0x202f || u == 0x205f || u == 0x3000
}

/// Whether `s` holds nothing but white space.
pub fn blank(s: &str) -> (r: bool)
    ensures
        r == is_blank(s@),
{
    let v = chars_of(s);
    let mut i: usize = 0;
    while i < v.len()
        invariant
            v@ == s@,
            i <= v.len(),
            forall|k: int| 0 <= k < i ==> #[trigger] is_white_space(s@[k]),
        decreases v.len() - i,
    {
        if !white_space(v[i]) {
            return false;
        }
        i += 1;
    }
    true
}

/// The index address once its field loses focus: a blank one is replaced by
/// the default address.
pub fn meta_index_url_after_edit(url: String, lost_focus: bool, default_url: &str) -> (r: String)
    ensures
        r@ == (if lost_focus && is_blank(url@) {
            default_url@
        } else {
            url@
        }),
{
    if lost_focus && blank(url.as_str()) {
        default_url.to_owned()
    } else {
        url
    }
}

/// The update interval shown in the editor: whole minutes of the interval in
/// seconds, as an `i32` (truncated to 32 bits).
pub open spec fn interval_minutes_spec(seconds: u64) -> i32 {
    (seconds / 60) as i32
}

/// The update interval in whole minutes.
pub fn interval_minutes(seconds: u64) -> (m: i32)
    ensures
        m == interval_minutes_spec(seconds),
{
    #[verifier::truncate]
    ((seconds / 60) as i32)
}

/// The interval in seconds after the minutes field showed
/// `interval_minutes(seconds)` and now holds `minutes`: unchanged minutes
/// keep the seconds as they were, changed ones set whole minutes.
pub fn update_interval_after_edit(seconds: u64, minutes: i32) -> (r: u64)
    requires
        minutes >= 0,
    ensures
        r == (if minutes == interval_minutes_spec(seconds) {
            seconds as int
        } else {
            minutes * 60
        }),
{
    if minutes != interval_minutes(seconds) {
        (minutes as u64) * 60
    } else {
        seconds
    }
}

/// The text-debugging switch and its parts.
#[derive(PartialEq, Eq, Structural, Clone, Copy, Debug)]
pub struct TextDebugFlags {
    pub text_debug: bool,
    pub text_log: bool,
    pub text_property_dump: bool,
    pub text_localize_dump: bool,
    pub text_position_debug: bool,
    pub text_path_debug: bool,
}

/// The flags after the text-debugging switch was clicked (`flags` holds the
/// switch's new state): switching it off switches off every part, switching
/// it on keeps them.
pub fn after_text_debug_click(flags: TextDebugFlags, clicked: bool) -> (r: TextDebugFlags)
    ensures
        r == (if clicked && !flags.text_debug {
            TextDebugFlags {
                text_debug: false,
                text_log: false,
                text_property_dump: false,
                text_localize_dump: false,
                text_position_debug: false,
                text_path_debug: false,
            }
        } else {
            flags
        }),
{
    if clicked && !flags.text_debug {
        TextDebugFlags {
            text_debug: false,
            text_log: false,
            text_property_dump: false,
            text_localize_dump: false,
            text_position_debug: false,
            text_path_debug: false,
        }
    } else {
        flags
    }
}

/// An optional setting after its enable switch, now `checked`: switching it
/// on sets the start of its range, switching it off unsets it, and a value
/// already set stays while the switch stays on.
pub fn option_after_toggle<T: Copy>(value: Option<T>, checked: bool, range_start: T) -> (r: Option<T>)
    ensures
        r == (if checked && value is None {
            Some(range_start)
        } else if !checked && value is Some {
            None
        } else {
            value
        }),
{
    if checked && value.is_none() {
        Some(range_start)
    } else if !checked && value.is_some() {
        None
    } else {
        value
    }
}

/// The localized data directory after the directory selector was shown: the
/// chosen directory when one was picked, else the configured one, else the
/// default `localized_data`; it is always set afterwards.
pub fn localized_data_dir_after_edit(configured: Option<String>, chosen: Option<String>) -> (r:
    Option<String>)
    ensures
        r is Some,
        r->0@ == (match chosen {
            Some(c) => c@,
            None => match configured {
                Some(d) => d@,
                None => "localized_data"@,
            },
        }),
{
    match chosen {
        Some(c) => Some(c),
        None => match configured {
            Some(d) => Some(d),
            None => Some("localized_data".to_owned()),
        },
    }
}

/// The custom window title after its field was edited: an empty title
/// unsets it.
pub fn custom_title_after_edit(title: Option<String>) -> (r: Option<String>)
    ensures
        r == (match title {
            Some(t) => if t@.len() == 0 {
                None
            } else {
                Some(t)
            },
            None => None,
        }),
{
    match title {
        Some(t) => optional_text(t),
        None => None,
    }
}

} // verus!
