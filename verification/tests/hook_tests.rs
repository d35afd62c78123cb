use hachimi::an_text::{an_text_update, contains_char, AnTextUpdate};
use hachimi::msgpack::notifier_url;
use hachimi::text::concat_str;

#[test]
fn contains_char_finds_characters() {
    assert!(contains_char("a$b", '$'));
    assert!(!contains_char("abc", '$'));
    assert!(!contains_char("", 'a'));
    assert!(contains_char("日本\n", '\n'));
}

#[test]
fn story_event_title_takes_its_layout() {
    let title = "Event\nTitle";
    assert_eq!(
        an_text_update(title, Some(title), true),
        AnTextUpdate { apply_title_layout: true, evaluate_template: false }
    );
    // no layout configured
    assert!(!an_text_update(title, Some(title), false).apply_title_layout);
    // single-line text is not taken for the title
    assert!(!an_text_update("Event", Some("Event"), true).apply_title_layout);
    // another text
    assert!(!an_text_update(title, Some("Other\nTitle"), true).apply_title_layout);
    assert!(!an_text_update(title, None, true).apply_title_layout);
}

#[test]
fn dollar_text_goes_through_templates() {
    assert!(an_text_update("$(name) wins", None, false).evaluate_template);
    assert!(!an_text_update("plain", None, false).evaluate_template);
}

#[test]
fn concat_joins_texts() {
    assert_eq!(concat_str("ab", "cd"), "abcd");
    assert_eq!(concat_str("", "x"), "x");
    assert_eq!(concat_str("x", ""), "x");
}

#[test]
fn notifier_url_picks_endpoint_and_filters() {
    assert_eq!(
        notifier_url(true, false, false, "http://127.0.0.1:4693"),
        Some("http://127.0.0.1:4693/notify/response".to_string())
    );
    assert_eq!(
        notifier_url(true, true, true, "http://h"),
        Some("http://h/notify/request".to_string())
    );
    assert_eq!(notifier_url(true, false, true, "http://h"), None);
    assert_eq!(notifier_url(false, true, false, "http://h"), None);
}
