//! Android specifics: which libraries are the game's, the keep-screen-on
//! switch and the platform configuration.

use vstd::prelude::*;
use crate::text::{has_suffix, str_ends_with};

verus! {

/// The library is the game's IL2CPP runtime.
pub fn is_il2cpp_lib(filename: &str) -> (r: bool)
    ensures
        r == has_suffix(filename@, "libil2cpp.so"@),
{
    str_ends_with(filename, "libil2cpp.so")
}

/// The library is the CriWare audio runtime.
pub fn is_criware_lib(filename: &str) -> (r: bool)
    ensures
        r == has_suffix(filename@, "libcri_ware_unity.so"@),
{
    str_ends_with(filename, "libcri_ware_unity.so")
}

/// Called once every hook is installed; Android has nothing to do then.
pub fn on_hooking_finished<H>(_hachimi: &H) {
}

/// Whether the screen is kept on.
pub struct KeepScreenOn {
    pub enabled: bool,
}

/// The window-flag call that keeps the screen on or lets it sleep.
#[derive(PartialEq, Eq, Structural, Clone, Copy, Debug)]
pub enum WindowFlagCall {
    AddFlags,
    ClearFlags,
}

/// What switching keep-screen-on asks of the platform: the engine's sleep
/// timeout, and the window-flag call with its flag.
#[derive(PartialEq, Eq, Structural, Clone, Copy, Debug)]
pub struct KeepScreenOnActions {
    pub sleep_timeout: i32,
    pub window_call: WindowFlagCall,
    pub flag: i32,
}

/// `FLAG_KEEP_SCREEN_ON` of Android's window manager.
pub const FLAG_KEEP_SCREEN_ON: i32 = 0x80;

/// Whether the screen is currently kept on.
pub fn is_keep_screen_on(state: &KeepScreenOn) -> (r: bool)
    ensures
        r == state.enabled,
{
    state.enabled
}

/// Switches keep-screen-on and says how the platform is to follow: the
/// sleep timeout first, then the window flag (a best effort).
pub fn set_keep_screen_on(state: &mut KeepScreenOn, enable: bool) -> (a: KeepScreenOnActions)
    ensures
        final(state).enabled == enable,
        a.sleep_timeout == (if enable {
            -1i32
        } else {
            -2i32
        }),
        a.window_call == (if enable {
            WindowFlagCall::AddFlags
        } else {
            WindowFlagCall::ClearFlags
        }),
        a.flag == FLAG_KEEP_SCREEN_ON,
{
    state.enabled = enable;
    let sleep_timeout = crate::screen::sleep_timeout_value(enable);
    let window_call = if enable {
        WindowFlagCall::AddFlags
    } else {
        WindowFlagCall::ClearFlags
    };
    KeepScreenOnActions { sleep_timeout, window_call, flag: FLAG_KEEP_SCREEN_ON }
}

/// Android's `KEYCODE_DPAD_RIGHT`.
pub const KEYCODE_DPAD_RIGHT: i32 = 22;

/// Android's `KEYCODE_INSERT`.
pub const KEYCODE_INSERT: i32 = 124;

/// The Android part of the configuration.
pub struct Config {
    pub menu_open_key: i32,
    pub hide_ingame_ui_hotkey_bind: i32,
    pub load_libraries: Vec<String>,
    pub hook_libc_dlopen: bool,
    pub keep_screen_on: bool,
}

impl Config {
    /// The key that opens the menu unless configured otherwise.
    pub fn default_menu_open_key() -> (k: i32)
        ensures
            k == KEYCODE_DPAD_RIGHT,
    {
        KEYCODE_DPAD_RIGHT
    }

    /// The key that hides the game's UI unless configured otherwise.
    pub fn default_hide_ingame_ui_hotkey_bind() -> (k: i32)
        ensures
            k == KEYCODE_INSERT,
    {
        KEYCODE_INSERT
    }
}

impl Default for Config {
    /// The configuration that fields missing from the file take.
    fn default() -> (c: Config)
        ensures
            c.menu_open_key == KEYCODE_DPAD_RIGHT,
            c.hide_ingame_ui_hotkey_bind == KEYCODE_INSERT,
            c.load_libraries@.len() == 0,
            !c.hook_libc_dlopen,
            !c.keep_screen_on,
    {
        Config {
            menu_open_key: Config::default_menu_open_key(),
            hide_ingame_ui_hotkey_bind: Config::default_hide_ingame_ui_hotkey_bind(),
            load_libraries: Vec::new(),
            hook_libc_dlopen: false,
            keep_screen_on: false,
        }
    }
}

} // verus!
