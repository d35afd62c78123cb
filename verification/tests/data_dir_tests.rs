use hachimi::data_dirs::{contains_text, load_localized_data_dirs, sort_dedup, text_less};

fn strings(v: &[&str]) -> Vec<String> {
    v.iter().map(|s| s.to_string()).collect()
}

#[test]
fn text_less_matches_str_order() {
    let samples = ["", "a", "ab", "b", "B", "é", "z", "日本", "localized_data", "localized_data_en"];
    for a in samples {
        for b in samples {
            assert_eq!(text_less(a, b), a < b, "{:?} < {:?}", a, b);
        }
    }
}

#[test]
fn sort_dedup_sorts_and_drops_repeats() {
    let out = sort_dedup(&strings(&["zh_cn", "en", "zh_cn", "ko", "en"]));
    assert_eq!(out, strings(&["en", "ko", "zh_cn"]));
    assert_eq!(sort_dedup(&Vec::new()), Vec::<String>::new());
}

#[test]
fn contains_text_finds_exact_names() {
    let v = strings(&["en", "ko"]);
    assert!(contains_text(&v, "ko"));
    assert!(!contains_text(&v, "k"));
    assert!(!contains_text(&Vec::new(), ""));
}

#[test]
fn default_dir_goes_first_when_missing() {
    let out = load_localized_data_dirs(&strings(&["b", "a", "b"]), None);
    assert_eq!(out, strings(&["localized_data", "a", "b"]));
    let none_found = load_localized_data_dirs(&Vec::new(), None);
    assert_eq!(none_found, strings(&["localized_data"]));
}

#[test]
fn found_default_dir_stays_in_sorted_place() {
    let out = load_localized_data_dirs(&strings(&["zh_cn", "localized_data", "en"]), None);
    assert_eq!(out, strings(&["en", "localized_data", "zh_cn"]));
}

#[test]
fn configured_dir_is_appended_when_not_found() {
    let out = load_localized_data_dirs(&strings(&["en"]), Some("custom"));
    assert_eq!(out, strings(&["localized_data", "en", "custom"]));
    let present = load_localized_data_dirs(&strings(&["en"]), Some("en"));
    assert_eq!(present, strings(&["localized_data", "en"]));
    let empty = load_localized_data_dirs(&strings(&["en"]), Some(""));
    assert_eq!(empty, strings(&["localized_data", "en"]));
    let default_again = load_localized_data_dirs(&Vec::new(), Some("localized_data"));
    assert_eq!(default_again, strings(&["localized_data"]));
}
