use hachimi::captions::{
    caption_decision, chara_id_from_captures, chara_id_from_cue_name, clean_caption_text,
    suppress_cue_name_pattern_list, CaptionTracker, CueCaptures, CueTextEntry, SuppressReason,
};

#[test]
fn chara_id_from_cue_names() {
    assert_eq!(chara_id_from_cue_name("snd_voi_chara_1001_"), Some(1001));
    assert_eq!(chara_id_from_cue_name("cue_91001_"), Some(1001));
    assert_eq!(chara_id_from_cue_name("snd_voi_race_1046_0001_01"), Some(1));
    assert_eq!(chara_id_from_cue_name("no_digits_here"), None);
}

#[test]
fn chara_id_from_captures_picks_group() {
    let caps = Some(CueCaptures {
        chara: Some("1046".to_string()),
        second: Some("1020".to_string()),
        third: Some("01".to_string()),
    });
    assert_eq!(chara_id_from_captures(&caps), Some(1020));
    let caps = Some(CueCaptures {
        chara: Some("1046".to_string()),
        second: Some("1020".to_string()),
        third: Some("02".to_string()),
    });
    assert_eq!(chara_id_from_captures(&caps), Some(1046));
    let caps = Some(CueCaptures { chara: None, second: None, third: None });
    assert_eq!(chara_id_from_captures(&caps), None);
    assert_eq!(chara_id_from_captures(&None), None);
}

#[test]
fn caption_text_is_one_line() {
    assert_eq!(clean_caption_text("a\n\nb\nc"), "a b c");
    assert_eq!(clean_caption_text("\n\n\n"), "  ");
    assert_eq!(clean_caption_text("plain"), "plain");
}

#[test]
fn cue_name_patterns_suppress() {
    let d = caption_decision("snd_voi_story_1001", 1001, 1, 1, 0);
    assert!(!d.show);
    assert_eq!(d.reason, Some(SuppressReason::CueNamePattern(0)));
    let d = caption_decision("x_gacha_1001", 1001, 1, 1, 0);
    assert_eq!(d.reason, Some(SuppressReason::CueNamePattern(10)));
    assert_eq!(suppress_cue_name_pattern_list()[10], "_gacha_");
}

#[test]
fn voice_npc_and_view_rules() {
    assert_eq!(caption_decision("snd_voi_1001", 1001, 95001, 1, 0).reason, Some(SuppressReason::VoiceId));
    assert_eq!(caption_decision("snd_voi_9001", 9001, 1, 1, 0).reason, Some(SuppressReason::NpcCharacter));
    assert!(caption_decision("snd_voi_9001", 9001, 95005, 1, 0).show);
    assert_eq!(caption_decision("snd_voi_1001", 1001, 1, 1, 101).reason, Some(SuppressReason::ViewId));
    assert_eq!(caption_decision("snd_voi_1001", 1001, 1, 1, 3200).reason, Some(SuppressReason::ViewId));
    let plain = caption_decision("snd_voi_1001", 1001, 1, 1, 0);
    assert!(plain.show);
    assert_eq!(plain.reason, None);
}

#[test]
fn forced_view_overrides_every_rule() {
    let d = caption_decision("snd_voi_story_1001", 9001, 95001, 1, 5212);
    assert!(d.show);
    assert!(d.force_show_view);
    assert_eq!(d.reason, Some(SuppressReason::CueNamePattern(0)));
}

#[test]
fn training_rules() {
    let n = "snd_voi_training_1001";
    assert_eq!(caption_decision(n, 1001, 100, 5, 0).reason, Some(SuppressReason::TrainingBelowThreshold));
    assert_eq!(caption_decision(n, 1001, 100, 39, 0).reason, Some(SuppressReason::TrainingExtraEntry));
    assert!(caption_decision(n, 1001, 100, 30, 0).show);
    assert!(caption_decision(n, 1001, 100, 8, 0).show);
    assert!(caption_decision(n, 1001, 2031, 5, 0).show);
    assert!(caption_decision(n, 1001, 93000, 5, 0).show);
    assert!(caption_decision(n, 1001, 20025, 5, 5901).show);
    assert_eq!(caption_decision(n, 1001, 20025, 5, 0).reason, Some(SuppressReason::TrainingViewNotAllowed));
}

fn entry(cue_id: i32, sheet: &str, text: &str, voice: i32) -> CueTextEntry {
    CueTextEntry {
        cue_id: Some(cue_id),
        cue_sheet: Some(sheet.to_string()),
        text: Some(text.to_string()),
        voice_id: Some(voice),
    }
}

#[test]
fn tracker_follows_a_caption_from_bank_to_display() {
    let mut t = CaptionTracker::new();
    let entries = vec![
        entry(3, "snd_voi_chara_1001", "wrong cue", 1),
        entry(4, "snd_voi_other", "wrong sheet", 1),
        entry(4, "snd_voi_chara_1001", "Hello\nthere", 20),
    ];
    let d = t.process_cue_info(77, true, "snd_voi_chara_1001_", 4, Some(1001), &entries, 0);
    assert!(d.unwrap().show);
    assert_eq!(t.acb_captions.get(&77).unwrap().text, "Hello there");
    assert_eq!(t.acb_captions.get(&77).unwrap().voice_id, 20);

    t.set_cue_id(5, 77);
    t.set_cue_id(6, 99);
    assert!(!t.player_acb.contains_key(&6));
    assert!(t.start(5));
    assert!(!t.start(6));
    let reqs = t.take_caption_requests(true);
    assert_eq!(reqs.len(), 1);
    assert_eq!(reqs[0].cue_sheet, "snd_voi_chara_1001");
    assert!(t.take_caption_requests(true).is_empty());

    assert!(t.clear_active_player(5));
    assert!(!t.clear_active_player(5));
    assert!(!t.start(5));
}

#[test]
fn tracker_drops_captions_when_disabled_or_released() {
    let mut t = CaptionTracker::new();
    let entries = vec![entry(1, "snd", "x", 2)];
    t.process_cue_info(1, true, "snd_1001_", 1, Some(1001), &entries, 0);
    assert!(t.acb_captions.contains_key(&1));
    assert!(t.process_cue_info(1, false, "snd_1001_", 1, Some(1001), &entries, 0).is_none());
    assert!(!t.acb_captions.contains_key(&1));

    t.process_cue_info(1, true, "snd_1001_", 1, Some(1001), &entries, 0);
    t.set_cue_id(9, 1);
    t.release(1);
    assert!(!t.start(9));

    t.process_cue_info(1, true, "snd_1001_", 1, Some(1001), &entries, 0);
    t.set_cue_id(9, 1);
    assert!(t.start(9));
    assert!(t.take_caption_requests(false).is_empty());
    assert!(t.requests.is_empty());
}

#[test]
fn entry_without_text_or_suppressed_gives_no_caption() {
    let mut t = CaptionTracker::new();
    let entries = vec![CueTextEntry { cue_id: Some(1), cue_sheet: Some("snd".to_string()), text: None, voice_id: Some(1) }];
    assert!(t.process_cue_info(3, true, "snd_1001_", 1, Some(1001), &entries, 0).is_none());
    assert!(!t.acb_captions.contains_key(&3));
    let entries = vec![entry(1, "snd", "x", 95001)];
    let d = t.process_cue_info(3, true, "snd_1001_", 1, Some(1001), &entries, 0).unwrap();
    assert!(!d.show);
    assert!(!t.acb_captions.contains_key(&3));
}
