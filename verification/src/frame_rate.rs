//! The frame-rate cap that the engine hook applies: the user's target, the
//! cap for an unfocused window, and the game's own request, which is kept so
//! that a focus change can restore it.

use vstd::prelude::*;

verus! {

/// The user's frame-rate settings at the moment of a call; `-1` means unset.
#[derive(PartialEq, Eq, Structural, Clone, Copy, Debug)]
pub struct FrameRateSettings {
    pub target_fps: i32,
    pub target_fps_unfocused: i32,
    pub window_unfocused: bool,
}

/// The game's last own request, `-1` until it makes one.
pub struct FrameRateState {
    pub last_game_fps: i32,
}

pub open spec fn clamp_fps(v: i32) -> i32 {
    if v < 30 {
        30
    } else if v > 240 {
        240
    } else {
        v
    }
}

/// The rate the hook passes on for a request of `requested`: the unfocused
/// cap while the window is unfocused and that cap is set, else the user's
/// target clamped to 30..=240 when set, else the request itself.
pub open spec fn applied_frame_rate(requested: i32, s: FrameRateSettings) -> i32 {
    if s.target_fps_unfocused != -1 && s.window_unfocused {
        s.target_fps_unfocused
    } else if s.target_fps != -1 {
        clamp_fps(s.target_fps)
    } else {
        requested
    }
}

/// The rate that should be active now.
pub open spec fn effective_frame_rate(last_game_fps: i32, s: FrameRateSettings) -> i32 {
    if s.target_fps_unfocused != -1 && s.window_unfocused {
        s.target_fps_unfocused
    } else if s.target_fps != -1 {
        s.target_fps
    } else {
        last_game_fps
    }
}

/// The rate passed to the engine for a requested `value`: the user's target
/// (kept within 30..=240) replaces it, and the unfocused cap replaces both
/// while the window is unfocused.
pub fn overridden_frame_rate(value: i32, settings: &FrameRateSettings) -> (v: i32)
    ensures
        v == applied_frame_rate(value, *settings),
{
    let mut v = value;
    if settings.target_fps != -1 {
        v = if settings.target_fps < 30 {
            30
        } else if settings.target_fps > 240 {
            240
        } else {
            settings.target_fps
        };
    }
    if settings.target_fps_unfocused != -1 && settings.window_unfocused {
        v = settings.target_fps_unfocused;
    }
    v
}

impl FrameRateState {
    /// No request seen yet.
    pub fn new() -> (s: Self)
        ensures
            s.last_game_fps == -1,
    {
        FrameRateState { last_game_fps: -1 }
    }

    /// The game asks for `value` frames per second: the request is recorded
    /// and the rate to pass on to the engine is returned.
    pub fn set_target_frame_rate(&mut self, value: i32, settings: &FrameRateSettings) -> (applied:
        i32)
        ensures
            final(self).last_game_fps == value,
            applied == applied_frame_rate(value, *settings),
    {
        self.last_game_fps = value;
        overridden_frame_rate(value, settings)
    }

    /// The rate that should currently be active: the unfocused cap, else the
    /// user's target, else the game's last request.
    pub fn current_effective_frame_rate(&self, settings: &FrameRateSettings) -> (r: i32)
        ensures
            r == effective_frame_rate(self.last_game_fps, *settings),
    {
        if settings.target_fps_unfocused != -1 && settings.window_unfocused {
            settings.target_fps_unfocused
        } else if settings.target_fps != -1 {
            settings.target_fps
        } else {
            self.last_game_fps
        }
    }

    /// Re-applies the cap after a focus change: when a rate is known, it is
    /// passed through the user's overrides to the engine. The game's own last
    /// request stays recorded, so that a later focus change can restore it.
    /// Returns the rate passed to the engine.
    pub fn poke_target_frame_rate(&self, settings: &FrameRateSettings) -> (r: Option<i32>)
        ensures
            ({
                let e = effective_frame_rate(self.last_game_fps, *settings);
                r == (if e == -1 {
                    None
                } else {
                    Some(applied_frame_rate(e, *settings))
                })
            }),
    {
        let value = self.current_effective_frame_rate(settings);
        if value != -1 {
            Some(overridden_frame_rate(value, settings))
        } else {
            None
        }
    }
}

/// The game's own rate comes back: with no user target and no unfocused
/// override in force, re-applying after the game requested `requested`
/// passes exactly that request to the engine.
pub proof fn law_poke_restores_game_rate(requested: i32, settings: FrameRateSettings)
    requires
        settings.target_fps == -1,
        !(settings.target_fps_unfocused != -1 && settings.window_unfocused),
        requested != -1,
    ensures
        applied_frame_rate(effective_frame_rate(requested, settings), settings) == requested,
{
}

/// Losing and regaining focus gives the game its own rate back: with no user
/// target, re-applying while unfocused passes the unfocused cap, and
/// re-applying once focused again passes the rate the game last requested,
/// which the first re-application left recorded.
pub proof fn law_focus_round_trip_restores_game_rate(
    requested: i32,
    unfocused: FrameRateSettings,
    focused: FrameRateSettings,
)
    requires
        requested != -1,
        unfocused.target_fps == -1,
        unfocused.target_fps_unfocused != -1,
        unfocused.window_unfocused,
        focused == (FrameRateSettings { window_unfocused: false, ..unfocused }),
    ensures
        applied_frame_rate(effective_frame_rate(requested, unfocused), unfocused)
            == unfocused.target_fps_unfocused,
        applied_frame_rate(effective_frame_rate(requested, focused), focused) == requested,
{
}

} // verus!
