use hachimi::plugins::{
    close_plugin_AppWindow, close_plugin_window, drain_plugin_notifications,
    drain_plugin_windows_to_show, enqueue_plugin_notification, get_plugin_menu_icon,
    get_plugin_menu_items, get_plugin_menu_sections, register_plugin_menu_icon,
    register_plugin_menu_item, register_plugin_menu_section,
    register_plugin_menu_section_with_icon, show_plugin_AppWindow, show_plugin_window,
    take_plugin_windows_to_close, PluginRegistry,
};

#[test]
fn icon_reads_back_what_was_registered() {
    let mut reg = PluginRegistry::new();
    assert!(register_plugin_menu_icon(&mut reg, "Tools".to_string(), "a.png".to_string(), vec![1, 2]));
    let icon = get_plugin_menu_icon(&reg, "Tools").unwrap();
    assert_eq!(icon.uri, "a.png");
    assert_eq!(icon.bytes, vec![1, 2]);
    assert!(get_plugin_menu_icon(&reg, "Other").is_none());
}

#[test]
fn icon_registration_replaces_earlier_one() {
    let mut reg = PluginRegistry::new();
    assert!(register_plugin_menu_icon(&mut reg, "A".to_string(), "1".to_string(), vec![1]));
    assert!(register_plugin_menu_icon(&mut reg, "B".to_string(), "2".to_string(), vec![2]));
    assert!(register_plugin_menu_icon(&mut reg, "A".to_string(), "3".to_string(), vec![3]));
    assert_eq!(get_plugin_menu_icon(&reg, "A").unwrap().uri, "3");
    assert_eq!(get_plugin_menu_icon(&reg, "B").unwrap().uri, "2");
    assert_eq!(reg.menu_icons.len(), 2);
}

#[test]
fn icon_registration_refuses_empty_parts() {
    let mut reg = PluginRegistry::new();
    assert!(!register_plugin_menu_icon(&mut reg, String::new(), "u".to_string(), vec![1]));
    assert!(!register_plugin_menu_icon(&mut reg, "l".to_string(), String::new(), vec![1]));
    assert!(!register_plugin_menu_icon(&mut reg, "l".to_string(), "u".to_string(), vec![]));
    assert!(reg.menu_icons.is_empty());
}

#[test]
fn sections_with_icon_refuse_empty_parts() {
    let mut reg = PluginRegistry::new();
    assert!(!register_plugin_menu_section_with_icon(&mut reg, String::new(), "u".to_string(), vec![1], 7, 0));
    assert!(register_plugin_menu_section_with_icon(&mut reg, "T".to_string(), "u".to_string(), vec![9], 7, 5));
    register_plugin_menu_section(&mut reg, 8, 6);
    let sections = get_plugin_menu_sections(&reg);
    assert_eq!(sections.len(), 2);
    assert_eq!(sections[0].title.as_deref(), Some("T"));
    assert_eq!(sections[0].icon.as_ref().unwrap().bytes, vec![9]);
    assert_eq!(sections[1].callback, 8);
    assert!(sections[1].icon.is_none());
}

#[test]
fn menu_items_are_copied_in_order() {
    let mut reg = PluginRegistry::new();
    register_plugin_menu_item(&mut reg, "one".to_string(), Some(10), 1);
    register_plugin_menu_item(&mut reg, "two".to_string(), None, 2);
    let items = get_plugin_menu_items(&reg);
    assert_eq!(items.len(), 2);
    assert_eq!(items[0].label, "one");
    assert_eq!(items[0].callback, Some(10));
    assert_eq!(items[1].userdata, 2);
}

#[test]
fn queues_drain_in_order_and_empty() {
    let mut reg = PluginRegistry::new();
    enqueue_plugin_notification(&mut reg, "a".to_string());
    enqueue_plugin_notification(&mut reg, "b".to_string());
    assert_eq!(drain_plugin_notifications(&mut reg), vec!["a".to_string(), "b".to_string()]);
    assert!(drain_plugin_notifications(&mut reg).is_empty());

    show_plugin_window(&mut reg, 1, "w1".to_string(), None, Some(3), 4);
    show_plugin_AppWindow(&mut reg, 2, "w2".to_string(), Some(5), None, 6);
    let shown = drain_plugin_windows_to_show(&mut reg);
    assert_eq!(shown.len(), 2);
    assert_eq!(shown[0].id, 1);
    assert_eq!(shown[1].title, "w2");
    assert!(drain_plugin_windows_to_show(&mut reg).is_empty());

    close_plugin_window(&mut reg, 1);
    close_plugin_AppWindow(&mut reg, 2);
    assert_eq!(take_plugin_windows_to_close(&mut reg), vec![1, 2]);
    assert!(take_plugin_windows_to_close(&mut reg).is_empty());
}

#[test]
fn refused_icon_registration_keeps_the_earlier_icon() {
    let mut reg = PluginRegistry::new();
    assert!(!register_plugin_menu_icon(&mut reg, "x".to_string(), String::new(), vec![1]));
    assert!(get_plugin_menu_icon(&reg, "x").is_none());
    assert!(register_plugin_menu_icon(&mut reg, "x".to_string(), "u".to_string(), vec![1]));
    assert!(!register_plugin_menu_icon(&mut reg, "x".to_string(), "v".to_string(), vec![]));
    let icon = get_plugin_menu_icon(&reg, "x").unwrap();
    assert_eq!(icon.uri, "u");
    assert_eq!(icon.bytes, vec![1]);
}
