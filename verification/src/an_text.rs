//! What an animated text does before it is laid out: a story event title
//! takes the layout configured for it, and text holding a `$` goes through
//! the template engine first.

use vstd::prelude::*;
use crate::text::chars_of;

verus! {

/// Whether the character `c` occurs in `s`.
pub fn contains_char(s: &str, c: char) -> (r: bool)
    ensures
        r == s@.contains(c),
{
    let v = chars_of(s);
    let mut i: usize = 0;
    while i < v.len()
        invariant
            v@ == s@,
            i <= v.len(),
            forall|j: int| 0 <= j < i ==> v@[j] != c,
        decreases v.len() - i,
    {
        if v[i] == c {
            assert(s@[i as int] == c);
            return true;
        }
        i += 1;
    }
    false
}

/// The steps an animated text takes before the engine's own update runs.
#[derive(PartialEq, Eq, Structural, Clone, Copy, Debug)]
pub struct AnTextUpdate {
    /// Apply the configured story-event-title font size, line spacing and
    /// offset, then re-position the text.
    pub apply_title_layout: bool,
    /// Replace the text by its template evaluation.
    pub evaluate_template: bool,
}

/// Decides the steps for `text`: the title layout applies when the text is
/// the last story event title, spans more than one line and a layout is
/// configured; the template runs when the text holds a `$`.
pub fn an_text_update(text: &str, last_story_event_title: Option<&str>, title_layout_configured: bool) -> (u: AnTextUpdate)
    ensures
        u.apply_title_layout == (last_story_event_title matches Some(t) && t@ == text@
            && text@.contains('\n') && title_layout_configured),
        u.evaluate_template == text@.contains('$'),
{
    let is_title = match last_story_event_title {
        Some(t) => {
            let a: String = t.to_owned();
            let b: String = text.to_owned();
            a == b
        },
        None => false,
    };
    let apply = is_title && contains_char(text, '\n') && title_layout_configured;
    AnTextUpdate { apply_title_layout: apply, evaluate_template: contains_char(text, '$') }
}

} // verus!
