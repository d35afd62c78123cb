use hachimi::android::{
    is_criware_lib, is_il2cpp_lib, is_keep_screen_on, on_hooking_finished, set_keep_screen_on,
    Config, KeepScreenOn, WindowFlagCall,
};
use hachimi::dex::{dex_unload, DexRegistry};
use hachimi::frame_rate::{FrameRateSettings, FrameRateState};
use hachimi::gui_state::{page_navigation, ConfigEditorTab, GuiState};
use hachimi::screen::{apply_auto_full_screen, sleep_timeout_value};
use hachimi::text_anchor::TextAnchor;
use hachimi::theme::{
    base_theme_json, same_manual_colors, translucent_surface_roles, ManualColor, ThemeCache,
    ThemeCacheKey, UiColorSchemeMode,
    UiContrastLevel, UiThemeMode,
};

#[test]
fn library_names() {
    assert!(is_il2cpp_lib("/data/app/lib/arm64/libil2cpp.so"));
    assert!(!is_il2cpp_lib("libil2cpp.so.bak"));
    assert!(is_criware_lib("libcri_ware_unity.so"));
    assert!(!is_criware_lib("libil2cpp.so"));
    on_hooking_finished(&());
}

#[test]
fn keep_screen_on_reads_back() {
    let mut k = KeepScreenOn { enabled: false };
    let a = set_keep_screen_on(&mut k, true);
    assert!(is_keep_screen_on(&k));
    assert_eq!(a.sleep_timeout, -1);
    assert_eq!(a.window_call, WindowFlagCall::AddFlags);
    assert_eq!(a.flag, 0x80);
    let a = set_keep_screen_on(&mut k, false);
    assert!(!is_keep_screen_on(&k));
    assert_eq!(a.sleep_timeout, -2);
    assert_eq!(a.window_call, WindowFlagCall::ClearFlags);
}

#[test]
fn android_config_defaults() {
    let c = Config::default();
    assert_eq!(c.menu_open_key, 22);
    assert_eq!(c.hide_ingame_ui_hotkey_bind, 124);
    assert_eq!(Config::default_menu_open_key(), 22);
    assert_eq!(Config::default_hide_ingame_ui_hotkey_bind(), 124);
    assert!(c.load_libraries.is_empty());
    assert!(!c.hook_libc_dlopen && !c.keep_screen_on);
}

#[test]
fn dex_handles_unload_once() {
    let mut reg: DexRegistry<&str> = DexRegistry::new();
    let a = reg.register("a");
    let b = reg.register("b");
    assert_eq!((a, b), (1, 2));
    assert_eq!(reg.entry(b), Some(&"b"));
    assert!(dex_unload(&mut reg, a));
    assert!(!dex_unload(&mut reg, a));
    assert!(reg.entry(a).is_none());
    assert!(!dex_unload(&mut reg, 0));
}

#[test]
fn frame_rate_override_and_restore() {
    let mut s = FrameRateState::new();
    let free = FrameRateSettings { target_fps: -1, target_fps_unfocused: -1, window_unfocused: false };
    assert_eq!(s.current_effective_frame_rate(&free), -1);
    assert_eq!(s.poke_target_frame_rate(&free), None);
    assert_eq!(s.set_target_frame_rate(60, &free), 60);
    assert_eq!(s.poke_target_frame_rate(&free), Some(60));
    let capped = FrameRateSettings { target_fps: 500, target_fps_unfocused: -1, window_unfocused: false };
    assert_eq!(s.set_target_frame_rate(60, &capped), 240);
    let low = FrameRateSettings { target_fps: 10, target_fps_unfocused: 15, window_unfocused: true };
    assert_eq!(s.set_target_frame_rate(60, &low), 15);
    assert_eq!(s.current_effective_frame_rate(&low), 15);
    let focused = FrameRateSettings { window_unfocused: false, ..low };
    assert_eq!(s.set_target_frame_rate(60, &focused), 30);
    assert_eq!(s.current_effective_frame_rate(&focused), 10);
    assert_eq!(s.poke_target_frame_rate(&focused), Some(30));
    assert_eq!(s.last_game_fps, 60);
}

#[test]
fn focus_round_trip_restores_game_rate() {
    let mut s = FrameRateState::new();
    let unfocused = FrameRateSettings { target_fps: -1, target_fps_unfocused: 5, window_unfocused: true };
    let focused = FrameRateSettings { window_unfocused: false, ..unfocused };
    assert_eq!(s.set_target_frame_rate(60, &focused), 60);
    assert_eq!(s.poke_target_frame_rate(&unfocused), Some(5));
    assert_eq!(s.last_game_fps, 60);
    assert_eq!(s.poke_target_frame_rate(&focused), Some(60));
    assert_eq!(s.current_effective_frame_rate(&focused), 60);
}

#[test]
fn screen_decisions() {
    assert_eq!(sleep_timeout_value(true), -1);
    assert_eq!(sleep_timeout_value(false), -2);
    assert_eq!(apply_auto_full_screen(1280, 720, (1920, 1080), (100, 50)), Some((1920, 1080)));
    assert_eq!(apply_auto_full_screen(720, 1280, (1920, 1080), (100, 50)), None);
    assert_eq!(apply_auto_full_screen(720, 1280, (0, 1080), (1080, 1920)), Some((1080, 1920)));
    assert_eq!(apply_auto_full_screen(0, 1280, (1920, 1080), (100, 50)), None);
}

#[test]
fn text_anchor_numbers() {
    assert_eq!(TextAnchor::MiddleCenter.to_i32(), 4);
    assert_eq!(TextAnchor::from_i32(8), Some(TextAnchor::LowerRight));
    assert_eq!(TextAnchor::from_i32(9), None);
    assert_eq!(TextAnchor::from_i32(-1), None);
    for v in 0..9 {
        assert_eq!(TextAnchor::from_i32(v).unwrap().to_i32(), v);
    }
}

#[test]
fn gui_menu_and_input() {
    let mut g = GuiState::new(true);
    assert!(!g.is_empty());
    assert!(!g.is_consuming_input());
    g.splash_visible = false;
    assert!(g.is_empty());
    g.toggle_menu();
    assert!(g.show_menu && g.menu_visible);
    assert!(g.is_consuming_input());
    g.toggle_menu();
    assert!(!g.show_menu && g.menu_visible);
    g.menu_frame_end(true);
    assert!(g.menu_anim_started && g.menu_visible);
    g.menu_frame_end(true);
    assert!(!g.menu_visible);
    assert!(g.is_empty());
    g.show_window();
    assert!(g.is_consuming_input());
    g.show_notification();
    assert_eq!(g.notification_count, 1);
    g.close_menu();
    assert!(!g.show_menu);
    assert_eq!(GuiState::new(false).window_count, 1);
}

#[test]
fn config_tabs_and_pages() {
    for t in [ConfigEditorTab::General, ConfigEditorTab::Graphics, ConfigEditorTab::Gameplay, ConfigEditorTab::Advanced] {
        assert_eq!(ConfigEditorTab::from_index(t.as_index()), t);
    }
    assert_eq!(ConfigEditorTab::from_index(7), ConfigEditorTab::General);
    assert_eq!(page_navigation(0, 3, true, true, false, false), (1, true));
    assert_eq!(page_navigation(0, 3, false, true, false, false), (0, true));
    assert_eq!(page_navigation(2, 3, true, false, true, false), (2, false));
    assert_eq!(page_navigation(1, 3, true, false, false, true), (0, true));
    assert_eq!(page_navigation(1, 3, true, true, false, true), (1, true));
}

fn color(role: &str, r: u8, g: u8, b: u8) -> ManualColor {
    ManualColor { role: role.to_string(), r, g, b }
}

#[test]
fn manual_colours_are_part_of_the_theme() {
    let key = ThemeCacheKey {
        seed_r: 1, seed_g: 2, seed_b: 3, seed_a: 255,
        mode: UiThemeMode::Light, contrast: UiContrastLevel::High,
        scheme_mode: UiColorSchemeMode::Manual, surface_alpha: 255, rounding_bits: 0,
    };
    let mut c = ThemeCache::new();
    c.record(key, vec![color("primary", 10, 20, 30), color("surface", 1, 1, 1)]);
    // the same overrides in another order: nothing to do
    assert!(!c.needs_apply(&key, &vec![color("surface", 1, 1, 1), color("primary", 10, 20, 30)]));
    // one override changed: applied again
    assert!(c.needs_apply(&key, &vec![color("primary", 10, 20, 31), color("surface", 1, 1, 1)]));
    assert!(c.needs_apply(&key, &vec![color("primary", 10, 20, 30)]));
    assert!(same_manual_colors(&vec![], &vec![]));
    assert!(!same_manual_colors(&vec![color("a", 0, 0, 0)], &vec![]));
}

#[test]
fn theme_cache_and_roles() {
    let key = ThemeCacheKey {
        seed_r: 1, seed_g: 2, seed_b: 3, seed_a: 255,
        mode: UiThemeMode::Dark, contrast: UiContrastLevel::Normal,
        scheme_mode: UiColorSchemeMode::Auto, surface_alpha: 200, rounding_bits: 0,
    };
    let mut c = ThemeCache::new();
    assert!(c.needs_apply(&key, &vec![]));
    assert_eq!(c.current_seed(), None);
    c.record(key, vec![]);
    assert!(!c.needs_apply(&key, &vec![]));
    assert!(c.needs_apply(&ThemeCacheKey { surface_alpha: 10, ..key }, &vec![]));
    assert_eq!(c.current_seed(), Some((1, 2, 3, 255)));
    // in automatic mode the manual colours do not shape the theme
    assert!(!c.needs_apply(&key, &vec![color("primary", 1, 2, 3)]));

    let seed = (1u8, 2u8, 3u8, 255u8);
    assert_eq!(base_theme_json(Some("{}"), None, seed), Some("{}".to_string()));
    assert_eq!(base_theme_json(Some("{}"), Some(seed), seed), Some("{}".to_string()));
    assert_eq!(base_theme_json(Some("{}"), Some((9, 2, 3, 255)), seed), None);
    assert_eq!(base_theme_json(Some(""), None, seed), None);
    assert_eq!(base_theme_json(None, Some(seed), seed), None);

    assert!(translucent_surface_roles(UiColorSchemeMode::Auto, &vec![], 255).is_empty());
    let auto = translucent_surface_roles(UiColorSchemeMode::Auto, &vec!["surface".to_string()], 100);
    assert_eq!(auto.len(), 9);
    assert_eq!(auto[0], "surface");
    assert_eq!(auto[8], "background");
    let manual = translucent_surface_roles(
        UiColorSchemeMode::Manual,
        &vec!["surface".to_string(), "primary".to_string()],
        100,
    );
    assert_eq!(manual.len(), 8);
    assert_eq!(manual[0], "surfaceContainer");
}
