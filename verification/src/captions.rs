//! Voice-line captions: which character a CriWare cue belongs to, which
//! character-text entry it plays, whether the filter rules let its caption
//! show, and the bookkeeping that ties sound banks, players and pending
//! caption requests together.

use std::collections::HashMap;
use vstd::prelude::*;
use crate::text::{
    chars_contain, chars_start_with, has_prefix, chars_of, has_infix, parse_i32, parse_i32_spec, replace_all, replace_str,
    string_eq_str,
};

verus! {

broadcast use vstd::std_specs::hash::group_hash_axioms;

// ---------------------------------------------------------------------------
// Character id from the cue name
// ---------------------------------------------------------------------------

/// The groups 1, 2 and 3 of the cue-sheet pattern, where they took part in
/// the match.
pub struct CueCaptures {
    pub chara: Option<String>,
    pub second: Option<String>,
    pub third: Option<String>,
}

pub open spec fn opt_view(s: Option<String>) -> Option<Seq<char>> {
    match s {
        Some(t) => Some(t@),
        None => None,
    }
}

/// The captures as plain character sequences.
pub open spec fn captures_view(c: Option<CueCaptures>) -> Option<
    (Option<Seq<char>>, Option<Seq<char>>, Option<Seq<char>>),
> {
    match c {
        Some(k) => Some((opt_view(k.chara), opt_view(k.second), opt_view(k.third))),
        None => None,
    }
}

/// What the cue-sheet pattern
/// `_(?:9)*(\d{4})(?:\d{2})*_(\d{4})*_*(\d{2})*(?:\d{2})*$` captures in a cue
/// name: `None` when it does not match, else groups 1, 2 and 3.
pub uninterp spec fn cue_sheet_captures(cue_name: Seq<char>) -> Option<
    (Option<Seq<char>>, Option<Seq<char>>, Option<Seq<char>>),
>;

/// `regex::Regex::captures` with the cue-sheet pattern. The result is named by
/// `cue_sheet_captures`: the regex crate's matching is a function of the cue
/// name alone, and what it captures is not restated here.
#[verifier::external_body]
fn cue_sheet_regex_captures(cue_name: &str) -> (r: Option<CueCaptures>)
    ensures
        captures_view(r) == cue_sheet_captures(cue_name@),
{
    let re = regex::Regex::new(r"_(?:9)*(\d{4})(?:\d{2})*_(\d{4})*_*(\d{2})*(?:\d{2})*$").unwrap();
    re.captures(cue_name).map(
        |c|
            CueCaptures {
                chara: c.get(1).map(|m| m.as_str().to_string()),
                second: c.get(2).map(|m| m.as_str().to_string()),
                third: c.get(3).map(|m| m.as_str().to_string()),
            },
    )
}

/// The character id that the captures denote: group 1, or group 2 when group
/// 3 is `01`; parsed as an `i32`.
pub open spec fn chara_id_spec(
    caps: Option<(Option<Seq<char>>, Option<Seq<char>>, Option<Seq<char>>)>,
) -> Option<i32> {
    match caps {
        None => None,
        Some((g1, g2, g3)) => {
            let s = if g2 is Some && g3 is Some && g3->0 == "01"@ {
                g2->0
            } else {
                match g1 {
                    Some(t) => t,
                    None => Seq::<char>::empty(),
                }
            };
            parse_i32_spec(s)
        },
    }
}

/// The character id of the captures of a cue name.
pub fn chara_id_from_captures(caps: &Option<CueCaptures>) -> (r: Option<i32>)
    ensures
        r == chara_id_spec(captures_view(*caps)),
{
    match caps {
        None => None,
        Some(c) => {
            let use_second = match (&c.second, &c.third) {
                (Some(_), Some(t)) => string_eq_str(t, "01"),
                _ => false,
            };
            if use_second {
                match &c.second {
                    Some(s) => parse_i32(s.as_str()),
                    None => None,
                }
            } else {
                match &c.chara {
                    Some(s) => parse_i32(s.as_str()),
                    None => {
                        proof {
                            reveal_strlit("");
                        }
                        assert(""@ =~= Seq::<char>::empty());
                        parse_i32("")
                    },
                }
            }
        },
    }
}

/// The character id that a cue name encodes, if any.
pub fn chara_id_from_cue_name(cue_name: &str) -> (r: Option<i32>)
    ensures
        r == chara_id_spec(cue_sheet_captures(cue_name@)),
{
    let caps = cue_sheet_regex_captures(cue_name);
    chara_id_from_captures(&caps)
}

// ---------------------------------------------------------------------------
// Caption text
// ---------------------------------------------------------------------------

/// A caption line: blank lines and line breaks become single spaces.
pub open spec fn clean_text_spec(t: Seq<char>) -> Seq<char> {
    replace_all(replace_all(t, "\n\n"@, " "@), "\n"@, " "@)
}

/// The caption text shown for a character-text line.
pub fn clean_caption_text(text: &str) -> (r: String)
    ensures
        r@ == clean_text_spec(text@),
{
    proof {
        reveal_strlit("\n\n");
        reveal_strlit("\n");
    }
    let once = replace_str(text, "\n\n", " ");
    replace_str(once.as_str(), "\n", " ")
}

// ---------------------------------------------------------------------------
// Filter rules
// ---------------------------------------------------------------------------

/// Cue-name fragments whose cues never show a caption, in the order they are
/// tried.
pub open spec fn suppress_cue_name_patterns() -> Seq<Seq<char>> {
    seq![
        "snd_voi_story"@,
        "story_"@,
        "chara_story"@,
        "arc_story"@,
        "snd_voi_evt"@,
        "evt_"@,
        "_gallery_"@,
        "_home_"@,
        "_tc_"@,
        "_title_"@,
        "_gacha_"@,
        "_factorresearch_"@,
    ]
}

/// The cue-name fragments of `suppress_cue_name_patterns`, in order.
pub fn suppress_cue_name_pattern_list() -> (v: Vec<String>)
    ensures
        v@.len() == suppress_cue_name_patterns().len(),
        forall|i: int| 0 <= i < v@.len() ==> #[trigger] v@[i]@ == suppress_cue_name_patterns()[i],
{
    let mut v: Vec<String> = Vec::new();
    v.push("snd_voi_story".to_owned());
    v.push("story_".to_owned());
    v.push("chara_story".to_owned());
    v.push("arc_story".to_owned());
    v.push("snd_voi_evt".to_owned());
    v.push("evt_".to_owned());
    v.push("_gallery_".to_owned());
    v.push("_home_".to_owned());
    v.push("_tc_".to_owned());
    v.push("_title_".to_owned());
    v.push("_gacha_".to_owned());
    v.push("_factorresearch_".to_owned());
    v
}

/// The first fragment, from index `j` on, that occurs in `name`.
pub open spec fn first_pattern_from(name: Seq<char>, pats: Seq<Seq<char>>, j: int) -> Option<int>
    decreases pats.len() - j,
{
    if j < 0 || j >= pats.len() {
        None
    } else if has_infix(name, pats[j]) {
        Some(j)
    } else {
        first_pattern_from(name, pats, j + 1)
    }
}

/// Why a caption is held back.
#[derive(PartialEq, Eq, Structural, Clone, Copy, Debug)]
pub enum SuppressReason {
    /// The cue name holds the fragment with this index in
    /// `suppress_cue_name_pattern_list`.
    CueNamePattern(usize),
    /// The voice id is blocked.
    VoiceId,
    /// An NPC or system character that no exception lets through.
    NpcCharacter,
    /// The current view never shows captions.
    ViewId,
    /// A training line whose voice needs a view that is not the current one.
    TrainingViewNotAllowed,
    /// A training line whose entry id is listed for suppression.
    TrainingExtraEntry,
    /// A training line whose entry id is below the threshold.
    TrainingBelowThreshold,
}

/// The outcome of the filter rules for one cue.
#[derive(PartialEq, Eq, Structural, Clone, Copy, Debug)]
pub struct CaptionDecision {
    pub show: bool,
    /// The current view shows every caption, whatever the other rules say.
    pub force_show_view: bool,
    /// The first rule, in logging order, that suppresses the caption.
    pub reason: Option<SuppressReason>,
}

pub open spec fn npc_exempt_voice(voice_id: i32) -> bool {
    voice_id == 95005 || voice_id == 95006 || voice_id == 70000
}

/// The training-scene rule suppresses the line.
pub open spec fn training_suppressed(
    name: Seq<char>,
    item_cue_id: i32,
    voice_id: i32,
    view_id: i32,
) -> bool {
    &&& has_infix(name, "_training_"@)
    &&& (item_cue_id < 29 || item_cue_id == 39)
    &&& !(item_cue_id == 8 || item_cue_id == 9 || item_cue_id == 12 || item_cue_id == 13)
    &&& !(2030 <= voice_id && voice_id <= 2037)
    &&& !(voice_id >= 93000)
    &&& !(voice_id == 20025 && view_id == 5901)
}

pub open spec fn training_reason(item_cue_id: i32, voice_id: i32) -> SuppressReason {
    if voice_id == 20025 {
        SuppressReason::TrainingViewNotAllowed
    } else if item_cue_id == 39 {
        SuppressReason::TrainingExtraEntry
    } else {
        SuppressReason::TrainingBelowThreshold
    }
}

/// The first suppression rule that applies, in the order cue-name fragment,
/// voice id, NPC character, view, training scene.
pub open spec fn suppress_reason(
    name: Seq<char>,
    chara_id: i32,
    voice_id: i32,
    item_cue_id: i32,
    view_id: i32,
) -> Option<SuppressReason> {
    match first_pattern_from(name, suppress_cue_name_patterns(), 0) {
        Some(j) => Some(SuppressReason::CueNamePattern(j as usize)),
        None => if voice_id == 95001 {
            Some(SuppressReason::VoiceId)
        } else if chara_id >= 9000 && !npc_exempt_voice(voice_id) {
            Some(SuppressReason::NpcCharacter)
        } else if view_id == 101 || view_id == 3200 {
            Some(SuppressReason::ViewId)
        } else if training_suppressed(name, item_cue_id, voice_id, view_id) {
            Some(training_reason(item_cue_id, voice_id))
        } else {
            None
        },
    }
}

/// The filter rules: the caption shows when the view forces captions or when
/// no suppression rule applies.
pub open spec fn caption_decision_spec(
    name: Seq<char>,
    chara_id: i32,
    voice_id: i32,
    item_cue_id: i32,
    view_id: i32,
) -> CaptionDecision {
    let force = view_id == 5212;
    let reason = suppress_reason(name, chara_id, voice_id, item_cue_id, view_id);
    CaptionDecision { show: force || reason is None, force_show_view: force, reason }
}

proof fn lemma_no_pattern_found(name: Seq<char>, pats: Seq<Seq<char>>, j: int)
    requires
        forall|k: int| 0 <= k < pats.len() ==> !has_infix(name, #[trigger] pats[k]),
    ensures
        first_pattern_from(name, pats, j) is None,
    decreases pats.len() - j,
{
    if 0 <= j < pats.len() {
        lemma_no_pattern_found(name, pats, j + 1);
    }
}

/// The training entries 8, 9, 12 and 13 are exceptions to the training-scene
/// rule: whatever the cue, voice and view, their lines are never held back
/// for a training reason.
pub proof fn law_training_exception_entries_not_held_back(
    name: Seq<char>,
    chara_id: i32,
    voice_id: i32,
    item_cue_id: i32,
    view_id: i32,
)
    requires
        item_cue_id == 8 || item_cue_id == 9 || item_cue_id == 12 || item_cue_id == 13,
    ensures
        ({
            let r = caption_decision_spec(name, chara_id, voice_id, item_cue_id, view_id).reason;
            r != Some(SuppressReason::TrainingBelowThreshold) && r != Some(
                SuppressReason::TrainingExtraEntry,
            ) && r != Some(SuppressReason::TrainingViewNotAllowed)
        }),
{
}

/// A training line with an exception entry shows when no other rule holds
/// it back: no blocked fragment in the cue name, not the blocked voice, not
/// an NPC without an allowed voice, not a caption-free view.
pub proof fn law_training_exception_entries_show(
    name: Seq<char>,
    chara_id: i32,
    voice_id: i32,
    item_cue_id: i32,
    view_id: i32,
)
    requires
        item_cue_id == 8 || item_cue_id == 9 || item_cue_id == 12 || item_cue_id == 13,
        forall|k: int|
            0 <= k < suppress_cue_name_patterns().len() ==> !has_infix(
                name,
                #[trigger] suppress_cue_name_patterns()[k],
            ),
        voice_id != 95001,
        chara_id < 9000 || voice_id == 95005 || voice_id == 95006 || voice_id == 70000,
        view_id != 101 && view_id != 3200,
    ensures
        caption_decision_spec(name, chara_id, voice_id, item_cue_id, view_id).show,
        caption_decision_spec(name, chara_id, voice_id, item_cue_id, view_id).reason is None,
{
    lemma_no_pattern_found(name, suppress_cue_name_patterns(), 0);
}

fn first_suppress_pattern(name: &Vec<char>) -> (r: Option<usize>)
    ensures
        match first_pattern_from(name@, suppress_cue_name_patterns(), 0) {
            Some(j) => r == Some(j as usize),
            None => r is None,
        },
{
    let pats = suppress_cue_name_pattern_list();
    let mut j: usize = 0;
    while j < pats.len()
        invariant
            j <= pats@.len(),
            pats@.len() == suppress_cue_name_patterns().len(),
            forall|i: int|
                0 <= i < pats@.len() ==> #[trigger] pats@[i]@ == suppress_cue_name_patterns()[i],
            first_pattern_from(name@, suppress_cue_name_patterns(), 0) == first_pattern_from(
                name@,
                suppress_cue_name_patterns(),
                j as int,
            ),
        decreases pats.len() - j,
    {
        let p = chars_of(pats[j].as_str());
        if chars_contain(name, &p) {
            return Some(j);
        }
        j += 1;
    }
    None
}

/// Applies the caption filter rules to one character-text line.
pub fn caption_decision(
    cue_name: &str,
    chara_id: i32,
    voice_id: i32,
    item_cue_id: i32,
    view_id: i32,
) -> (d: CaptionDecision)
    ensures
        d == caption_decision_spec(cue_name@, chara_id, voice_id, item_cue_id, view_id),
{
    let name = chars_of(cue_name);
    let force = view_id == 5212;
    let reason = match first_suppress_pattern(&name) {
        Some(j) => Some(SuppressReason::CueNamePattern(j)),
        None => {
            if voice_id == 95001 {
                Some(SuppressReason::VoiceId)
            } else if chara_id >= 9000 && !(voice_id == 95005 || voice_id == 95006 || voice_id
                == 70000) {
                Some(SuppressReason::NpcCharacter)
            } else if view_id == 101 || view_id == 3200 {
                Some(SuppressReason::ViewId)
            } else {
                let training = chars_of("_training_");
                let suppressed = chars_contain(&name, &training) && (item_cue_id < 29 || item_cue_id
                    == 39) && !(item_cue_id == 8 || item_cue_id == 9 || item_cue_id == 12
                    || item_cue_id == 13) && !(2030 <= voice_id && voice_id <= 2037) && !(voice_id
                    >= 93000) && !(voice_id == 20025 && view_id == 5901);
                if suppressed {
                    if voice_id == 20025 {
                        Some(SuppressReason::TrainingViewNotAllowed)
                    } else if item_cue_id == 39 {
                        Some(SuppressReason::TrainingExtraEntry)
                    } else {
                        Some(SuppressReason::TrainingBelowThreshold)
                    }
                } else {
                    None
                }
            }
        },
    };
    let show = force || reason.is_none();
    CaptionDecision { show, force_show_view: force, reason }
}

// ---------------------------------------------------------------------------
// Character-text lines
// ---------------------------------------------------------------------------

/// A character-text row as the game hands it out; `None` stands for a field
/// that the row's class lacks or for a null value.
pub struct CueTextEntry {
    pub cue_id: Option<i32>,
    pub cue_sheet: Option<String>,
    pub text: Option<String>,
    pub voice_id: Option<i32>,
}

/// The row is the line of cue `cue_id` of the sheet that `name` begins with.
pub open spec fn entry_matches(e: CueTextEntry, cue_id: i32, name: Seq<char>) -> bool {
    e.cue_id == Some(cue_id) && e.cue_sheet is Some && has_prefix(name, e.cue_sheet->0@)
}

/// The first row, from index `j` on, that matches.
pub open spec fn first_entry_from(
    entries: Seq<CueTextEntry>,
    cue_id: i32,
    name: Seq<char>,
    j: int,
) -> Option<int>
    decreases entries.len() - j,
{
    if j < 0 || j >= entries.len() {
        None
    } else if entry_matches(entries[j], cue_id, name) {
        Some(j)
    } else {
        first_entry_from(entries, cue_id, name, j + 1)
    }
}

/// A caption waiting for its cue to play.
pub struct CaptionData {
    pub text: String,
    pub cue_sheet: String,
    pub cue_id: i32,
    pub character_id: i32,
    pub voice_id: i32,
}

/// A caption as plain values.
pub struct CaptionView {
    pub text: Seq<char>,
    pub cue_sheet: Seq<char>,
    pub cue_id: i32,
    pub character_id: i32,
    pub voice_id: i32,
}

impl View for CaptionData {
    type V = CaptionView;

    open spec fn view(&self) -> CaptionView {
        CaptionView {
            text: self.text@,
            cue_sheet: self.cue_sheet@,
            cue_id: self.cue_id,
            character_id: self.character_id,
            voice_id: self.voice_id,
        }
    }
}

impl CaptionData {
    /// An equal copy.
    pub fn duplicate(&self) -> (r: Self)
        ensures
            r == *self,
    {
        CaptionData {
            text: self.text.clone(),
            cue_sheet: self.cue_sheet.clone(),
            cue_id: self.cue_id,
            character_id: self.character_id,
            voice_id: self.voice_id,
        }
    }
}

pub open spec fn opt_caption_view(c: Option<CaptionData>) -> Option<CaptionView> {
    match c {
        Some(d) => Some(d@),
        None => None,
    }
}

/// What a cue of character `chara_id` yields: the filter decision for its
/// line, and the caption to keep when the line shows. Nothing when no row
/// matches or the matching row lacks its text or voice id.
pub open spec fn cue_caption_spec(
    name: Seq<char>,
    cue_id: i32,
    chara_id: i32,
    entries: Seq<CueTextEntry>,
    view_id: i32,
) -> (Option<CaptionDecision>, Option<CaptionView>) {
    match first_entry_from(entries, cue_id, name, 0) {
        None => (None, None),
        Some(j) => {
            let e = entries[j];
            if e.text is None || e.voice_id is None {
                (None, None)
            } else {
                let voice_id = e.voice_id->0;
                let d = caption_decision_spec(name, chara_id, voice_id, cue_id, view_id);
                let caption = if d.show {
                    Some(
                        CaptionView {
                            text: clean_text_spec(e.text->0@),
                            cue_sheet: e.cue_sheet->0@,
                            cue_id,
                            character_id: chara_id,
                            voice_id,
                        },
                    )
                } else {
                    None
                };
                (Some(d), caption)
            }
        },
    }
}

/// The caption kept for a cue is the one of that cue and of the character it
/// was looked up for: it carries the `chara_id` and `cue_id` it was asked
/// for, the voice id of the row it came from, and it is kept only when the
/// filter shows it.
pub proof fn law_caption_carries_its_character(
    name: Seq<char>,
    cue_id: i32,
    chara_id: i32,
    entries: Seq<CueTextEntry>,
    view_id: i32,
)
    ensures
        cue_caption_spec(name, cue_id, chara_id, entries, view_id).1 matches Some(c) ==> {
            &&& c.character_id == chara_id
            &&& c.cue_id == cue_id
            &&& exists|k: int|
                0 <= k < entries.len() && entries[k].cue_id == Some(cue_id) && #[trigger] entries[k].voice_id
                    == Some(c.voice_id)
            &&& cue_caption_spec(name, cue_id, chara_id, entries, view_id).0 matches Some(d) && d.show
        },
{
    lemma_first_entry_matches(entries, cue_id, name, 0);
}

proof fn lemma_first_entry_matches(entries: Seq<CueTextEntry>, cue_id: i32, name: Seq<char>, j: int)
    ensures
        first_entry_from(entries, cue_id, name, j) matches Some(k) ==> 0 <= k < entries.len()
            && entry_matches(entries[k], cue_id, name),
    decreases entries.len() - j,
{
    if 0 <= j < entries.len() {
        lemma_first_entry_matches(entries, cue_id, name, j + 1);
    }
}

/// Finds the row of cue `cue_id` among the lines of character `chara_id`,
/// applies the filter rules and builds the caption when it shows.
pub fn caption_for_cue(
    cue_name: &str,
    cue_id: i32,
    chara_id: i32,
    entries: &Vec<CueTextEntry>,
    view_id: i32,
) -> (r: (Option<CaptionDecision>, Option<CaptionData>))
    ensures
        (r.0, opt_caption_view(r.1)) == cue_caption_spec(
            cue_name@,
            cue_id,
            chara_id,
            entries@,
            view_id,
        ),
{
    let name = chars_of(cue_name);
    let mut j: usize = 0;
    while j < entries.len()
        invariant
            j <= entries@.len(),
            name@ == cue_name@,
            first_entry_from(entries@, cue_id, cue_name@, 0) == first_entry_from(
                entries@,
                cue_id,
                cue_name@,
                j as int,
            ),
        decreases entries.len() - j,
    {
        let e = &entries[j];
        let matches = match (&e.cue_id, &e.cue_sheet) {
            (Some(id), Some(sheet)) => *id == cue_id && chars_start_with(
                &name,
                &chars_of(sheet.as_str()),
            ),
            _ => false,
        };
        if matches {
            match (&e.text, &e.voice_id, &e.cue_sheet) {
                (Some(text), Some(voice_id), Some(sheet)) => {
                    let d = caption_decision(cue_name, chara_id, *voice_id, cue_id, view_id);
                    if d.show {
                        let caption = CaptionData {
                            text: clean_caption_text(text.as_str()),
                            cue_sheet: sheet.clone(),
                            cue_id,
                            character_id: chara_id,
                            voice_id: *voice_id,
                        };
                        return (Some(d), Some(caption));
                    }
                    return (Some(d), None);
                },
                _ => {
                    return (None, None);
                },
            }
        }
        j += 1;
    }
    (None, None)
}

// ---------------------------------------------------------------------------
// Bookkeeping between sound banks, players and pending captions
// ---------------------------------------------------------------------------

/// Captions by sound bank, the bank each player was pointed at, the bank each
/// playing player is showing, and the captions queued for display.
pub struct CaptionTracker {
    pub acb_captions: HashMap<usize, CaptionData>,
    pub player_acb: HashMap<usize, usize>,
    pub active_players: HashMap<usize, usize>,
    pub requests: Vec<CaptionData>,
}

/// The tracker as plain maps and sequences.
pub struct TrackerState {
    pub captions: Map<usize, CaptionData>,
    pub player_acb: Map<usize, usize>,
    pub active: Map<usize, usize>,
    pub requests: Seq<CaptionData>,
}

impl View for CaptionTracker {
    type V = TrackerState;

    open spec fn view(&self) -> TrackerState {
        TrackerState {
            captions: self.acb_captions@,
            player_acb: self.player_acb@,
            active: self.active_players@,
            requests: self.requests@,
        }
    }
}

/// The caption of bank `acb` is replaced by `caption` (or dropped); nothing
/// else changes.
pub open spec fn cue_info_applied(
    old: TrackerState,
    new: TrackerState,
    acb: usize,
    caption: Option<CaptionView>,
) -> bool {
    &&& new.player_acb == old.player_acb
    &&& new.active == old.active
    &&& new.requests == old.requests
    &&& forall|k: usize|
        k != acb ==> (#[trigger] new.captions.contains_key(k) == old.captions.contains_key(k)
            && (old.captions.contains_key(k) ==> new.captions[k] == old.captions[k]))
    &&& new.captions.contains_key(acb) == caption is Some
    &&& caption is Some ==> new.captions[acb]@ == caption->0
}

/// Player `player` is pointed at bank `acb`; remembered only when the bank
/// has a caption.
pub open spec fn after_set_cue_id(s: TrackerState, player: usize, acb: usize) -> TrackerState {
    if s.captions.contains_key(acb) {
        TrackerState { player_acb: s.player_acb.insert(player, acb), ..s }
    } else {
        s
    }
}

/// Starting `player` queues a caption: it is pointed at a bank that has one.
pub open spec fn start_queues(s: TrackerState, player: usize) -> bool {
    s.player_acb.contains_key(player) && s.captions.contains_key(s.player_acb[player])
}

/// The tracker after `player` starts.
pub open spec fn after_start(s: TrackerState, player: usize) -> TrackerState {
    if start_queues(s, player) {
        let acb = s.player_acb[player];
        TrackerState {
            active: s.active.insert(player, acb),
            requests: s.requests.push(s.captions[acb]),
            ..s
        }
    } else {
        s
    }
}

/// The tracker after `player` stops: the caption of the bank it was showing
/// is forgotten.
pub open spec fn after_clear(s: TrackerState, player: usize) -> TrackerState {
    if s.active.contains_key(player) {
        TrackerState {
            active: s.active.remove(player),
            captions: s.captions.remove(s.active[player]),
            ..s
        }
    } else {
        s
    }
}

/// The tracker after bank `acb` is released.
pub open spec fn after_release(s: TrackerState, acb: usize) -> TrackerState {
    TrackerState { captions: s.captions.remove(acb), ..s }
}

impl CaptionTracker {
    /// A tracker with nothing recorded.
    pub fn new() -> (t: Self)
        ensures
            t@.captions == Map::<usize, CaptionData>::empty(),
            t@.player_acb == Map::<usize, usize>::empty(),
            t@.active == Map::<usize, usize>::empty(),
            t@.requests == Seq::<CaptionData>::empty(),
    {
        CaptionTracker {
            acb_captions: HashMap::new(),
            player_acb: HashMap::new(),
            active_players: HashMap::new(),
            requests: Vec::new(),
        }
    }

    /// Records what a cue lookup on bank `acb` found. The stale caption of the
    /// bank is always dropped; when captions are enabled and the cue's
    /// character (`chara_id`, from `chara_id_from_cue_name`) has a matching
    /// line that the filter lets through, its caption is kept. Returns the
    /// filter decision, when a line was found.
    pub fn process_cue_info(
        &mut self,
        acb: usize,
        caption_enable: bool,
        cue_name: &str,
        cue_id: i32,
        chara_id: Option<i32>,
        entries: &Vec<CueTextEntry>,
        view_id: i32,
    ) -> (d: Option<CaptionDecision>)
        ensures
            ({
                let (sd, sc) = if caption_enable && chara_id is Some {
                    cue_caption_spec(cue_name@, cue_id, chara_id->0, entries@, view_id)
                } else {
                    (None, None)
                };
                d == sd && cue_info_applied(old(self)@, final(self)@, acb, sc)
            }),
    {
        self.acb_captions.remove(&acb);
        if !caption_enable {
            return None;
        }
        match chara_id {
            None => None,
            Some(id) => {
                let (d, caption) = caption_for_cue(cue_name, cue_id, id, entries, view_id);
                match caption {
                    Some(c) => {
                        self.acb_captions.insert(acb, c);
                    },
                    None => {},
                }
                d
            },
        }
    }

    /// Player `player` is pointed at cue bank `acb`.
    pub fn set_cue_id(&mut self, player: usize, acb: usize)
        ensures
            final(self)@ == after_set_cue_id(old(self)@, player, acb),
    {
        if self.acb_captions.contains_key(&acb) {
            self.player_acb.insert(player, acb);
        }
    }

    /// Player `player` starts playing; returns whether a caption was queued
    /// (the caller then schedules the display on the main thread).
    pub fn start(&mut self, player: usize) -> (queued: bool)
        ensures
            queued == start_queues(old(self)@, player),
            final(self)@ == after_start(old(self)@, player),
    {
        let acb = match self.player_acb.get(&player) {
            Some(a) => *a,
            None => {
                return false;
            },
        };
        let data = match self.acb_captions.get(&acb) {
            Some(d) => d.duplicate(),
            None => {
                return false;
            },
        };
        self.active_players.insert(player, acb);
        self.requests.push(data);
        true
    }

    /// Player `player` stopped (or was paused for good): the caption of the
    /// bank it was showing is dropped. Returns whether there was one, in which
    /// case the caller clears the caption display.
    pub fn clear_active_player(&mut self, player: usize) -> (cleared: bool)
        ensures
            cleared == old(self)@.active.contains_key(player),
            final(self)@ == after_clear(old(self)@, player),
    {
        match self.active_players.remove(&player) {
            Some(acb) => {
                self.acb_captions.remove(&acb);
                assert(self@.captions =~= old(self)@.captions.remove(old(self)@.active[player]));
                assert(self@.active =~= old(self)@.active.remove(player));
                true
            },
            None => {
                assert(self@.active =~= old(self)@.active);
                false
            },
        }
    }

    /// Cue bank `acb` is released.
    pub fn release(&mut self, acb: usize)
        ensures
            final(self)@ == after_release(old(self)@, acb),
    {
        self.acb_captions.remove(&acb);
    }

    /// Takes the queued captions, oldest first; when captions were switched
    /// off meanwhile they are discarded instead.
    pub fn take_caption_requests(&mut self, caption_enable: bool) -> (r: Vec<CaptionData>)
        ensures
            r@ == (if caption_enable {
                old(self)@.requests
            } else {
                Seq::<CaptionData>::empty()
            }),
            final(self)@ == (TrackerState { requests: Seq::<CaptionData>::empty(), ..old(self)@ }),
    {
        let mut out: Vec<CaptionData> = Vec::new();
        std::mem::swap(&mut self.requests, &mut out);
        if caption_enable {
            out
        } else {
            Vec::new()
        }
    }
}

/// The text a queued caption shows: the character's localized line for the
/// voice when the localized data has one, else the text that was queued.
pub open spec fn display_text_spec(
    dict: Map<i32, Map<i32, String>>,
    character_id: i32,
    voice_id: i32,
    queued: Seq<char>,
) -> Seq<char> {
    if dict.contains_key(character_id) && dict[character_id].contains_key(voice_id) {
        dict[character_id][voice_id]@
    } else {
        queued
    }
}

/// The text to show for a queued caption, given the localized character
/// lines (by character id, then voice id).
pub fn caption_display_text(
    dict: &HashMap<i32, HashMap<i32, String>>,
    caption: &CaptionData,
) -> (t: String)
    ensures
        t@ == display_text_spec(
            dict@.map_values(|m: HashMap<i32, String>| m@),
            caption.character_id,
            caption.voice_id,
            caption.text@,
        ),
{
    let ghost outer = dict@.map_values(|m: HashMap<i32, String>| m@);
    match dict.get(&caption.character_id) {
        Some(lines) => {
            assert(outer[caption.character_id] == lines@);
            match lines.get(&caption.voice_id) {
                Some(line) => line.clone(),
                None => caption.text.clone(),
            }
        },
        None => caption.text.clone(),
    }
}

/// Stopping a player withdraws its caption: once a started player is
/// stopped, starting it again queues nothing until its bank gets a caption
/// anew.
pub proof fn law_stop_withdraws_caption(s: TrackerState, player: usize)
    requires
        start_queues(s, player),
    ensures
        !start_queues(after_clear(after_start(s, player), player), player),
{
}

/// Releasing a bank forgets its caption: no player pointed at it queues one.
pub proof fn law_release_forgets_caption(s: TrackerState, acb: usize, player: usize)
    requires
        s.player_acb.contains_key(player),
        s.player_acb[player] == acb,
    ensures
        !start_queues(after_release(s, acb), player),
{
}

/// A player pointed at a captioned bank queues exactly that bank's caption
/// when it starts.
pub proof fn law_start_queues_bank_caption(s: TrackerState, player: usize, acb: usize)
    requires
        s.captions.contains_key(acb),
    ensures
        start_queues(after_set_cue_id(s, player, acb), player),
        after_start(after_set_cue_id(s, player, acb), player).requests == s.requests.push(
            s.captions[acb],
        ),
{
}

} // verus!
