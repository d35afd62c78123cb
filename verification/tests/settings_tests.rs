use std::collections::HashMap;

use hachimi::captions::{caption_display_text, CaptionData};
use hachimi::settings::{
    after_text_debug_click, blank, custom_title_after_edit, interval_minutes,
    localized_data_dir_after_edit, meta_index_url_after_edit, option_after_toggle, optional_text,
    update_interval_after_edit, TextDebugFlags,
};

#[test]
fn blank_matches_trim() {
    for u in 0u32..0x3100 {
        if let Some(c) = char::from_u32(u) {
            let s = format!("{}{}", c, c);
            assert_eq!(blank(&s), s.trim().is_empty(), "U+{:04X}", u);
        }
    }
    assert!(blank(""));
    assert!(!blank(" a "));
}

#[test]
fn emptied_optional_text_unsets() {
    assert_eq!(optional_text(String::new()), None);
    assert_eq!(optional_text("http://x".to_string()), Some("http://x".to_string()));
    assert_eq!(optional_text(" ".to_string()), Some(" ".to_string()));
}

#[test]
fn blank_index_address_falls_back_on_focus_loss() {
    let d = "https://default/index.json";
    assert_eq!(meta_index_url_after_edit("  \t".to_string(), true, d), d);
    assert_eq!(meta_index_url_after_edit("".to_string(), true, d), d);
    assert_eq!(meta_index_url_after_edit("".to_string(), false, d), "");
    assert_eq!(meta_index_url_after_edit(" u ".to_string(), true, d), " u ");
}

#[test]
fn interval_is_edited_in_minutes() {
    assert_eq!(interval_minutes(3600), 60);
    assert_eq!(interval_minutes(90), 1);
    // unchanged minutes keep the exact seconds
    assert_eq!(update_interval_after_edit(90, 1), 90);
    assert_eq!(update_interval_after_edit(90, 2), 120);
    assert_eq!(update_interval_after_edit(3600, 10080), 604800);
}

#[test]
fn switching_text_debug_off_clears_its_parts() {
    let on = TextDebugFlags {
        text_debug: true, text_log: true, text_property_dump: true,
        text_localize_dump: false, text_position_debug: true, text_path_debug: true,
    };
    assert_eq!(after_text_debug_click(on, true), on);
    let off = TextDebugFlags { text_debug: false, ..on };
    let cleared = after_text_debug_click(off, true);
    assert_eq!(
        cleared,
        TextDebugFlags {
            text_debug: false, text_log: false, text_property_dump: false,
            text_localize_dump: false, text_position_debug: false, text_path_debug: false,
        }
    );
    assert_eq!(after_text_debug_click(off, false), off);
}

#[test]
fn caption_shows_localized_line_when_there_is_one() {
    let caption = CaptionData {
        text: "queued".to_string(),
        cue_sheet: "snd_voi".to_string(),
        cue_id: 3,
        character_id: 1001,
        voice_id: 20,
    };
    let mut dict: HashMap<i32, HashMap<i32, String>> = HashMap::new();
    assert_eq!(caption_display_text(&dict, &caption), "queued");
    let mut lines = HashMap::new();
    lines.insert(21, "other voice".to_string());
    dict.insert(1001, lines);
    assert_eq!(caption_display_text(&dict, &caption), "queued");
    dict.get_mut(&1001).unwrap().insert(20, "localized".to_string());
    assert_eq!(caption_display_text(&dict, &caption), "localized");
}

#[test]
fn option_toggle_sets_range_start_or_unsets() {
    assert_eq!(option_after_toggle(None, true, 30), Some(30));
    assert_eq!(option_after_toggle(Some(120), true, 30), Some(120));
    assert_eq!(option_after_toggle(Some(120), false, 30), None);
    assert_eq!(option_after_toggle::<i32>(None, false, 30), None);
}

#[test]
fn localized_data_dir_is_always_set() {
    assert_eq!(localized_data_dir_after_edit(None, None), Some("localized_data".to_string()));
    assert_eq!(localized_data_dir_after_edit(Some("ko".to_string()), None), Some("ko".to_string()));
    assert_eq!(
        localized_data_dir_after_edit(Some("ko".to_string()), Some("en".to_string())),
        Some("en".to_string())
    );
}

#[test]
fn empty_custom_title_unsets() {
    assert_eq!(custom_title_after_edit(Some(String::new())), None);
    assert_eq!(custom_title_after_edit(None), None);
    assert_eq!(custom_title_after_edit(Some("Uma".to_string())), Some("Uma".to_string()));
}
