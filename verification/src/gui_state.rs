//! The overlay's visibility state, its input capture, the config editor's
//! tabs and the page navigation of multi-page windows.

use vstd::prelude::*;

verus! {

/// What the overlay shows. The menu slides out: after it is hidden it stays
/// drawn until its closing animation has run.
pub struct GuiState {
    pub show_menu: bool,
    pub menu_visible: bool,
    /// The closing animation of the menu has started.
    pub menu_anim_started: bool,
    pub splash_visible: bool,
    pub update_progress_visible: bool,
    pub notification_count: usize,
    pub window_count: usize,
}

/// The overlay after the menu is toggled.
pub open spec fn toggled(g: GuiState) -> GuiState {
    if !g.show_menu {
        GuiState { show_menu: true, menu_visible: true, ..g }
    } else {
        GuiState { show_menu: false, menu_anim_started: false, ..g }
    }
}

/// The overlay takes the input.
pub open spec fn consumes_input(g: GuiState) -> bool {
    g.menu_visible || g.window_count > 0
}

impl GuiState {
    /// The overlay at start-up: the splash shows, the menu is closed, and the
    /// first-time setup window is open unless it is to be skipped.
    pub fn new(skip_first_time_setup: bool) -> (g: Self)
        ensures
            !g.show_menu,
            !g.menu_visible,
            !g.menu_anim_started,
            g.splash_visible,
            !g.update_progress_visible,
            g.notification_count == 0,
            g.window_count == (if skip_first_time_setup {
                0usize
            } else {
                1usize
            }),
    {
        GuiState {
            show_menu: false,
            menu_visible: false,
            menu_anim_started: false,
            splash_visible: true,
            update_progress_visible: false,
            notification_count: 0,
            window_count: if skip_first_time_setup {
                0
            } else {
                1
            },
        }
    }

    /// Opens or closes the menu. It is drawn at once when opened; when
    /// closed it stays drawn until its animation has run.
    pub fn toggle_menu(&mut self)
        ensures
            *final(self) == toggled(*old(self)),
    {
        self.show_menu = !self.show_menu;
        if self.show_menu {
            self.menu_visible = true;
        } else {
            self.menu_anim_started = false;
        }
    }

    /// The menu's close button.
    pub fn close_menu(&mut self)
        ensures
            !final(self).show_menu,
            !final(self).menu_anim_started,
            final(self).menu_visible == old(self).menu_visible,
            final(self).splash_visible == old(self).splash_visible,
            final(self).update_progress_visible == old(self).update_progress_visible,
            final(self).notification_count == old(self).notification_count,
            final(self).window_count == old(self).window_count,
    {
        self.show_menu = false;
        self.menu_anim_started = false;
    }

    /// The end of a frame in which the menu was drawn: a hidden menu starts
    /// its closing animation, and stops being drawn once the animation has
    /// run (`animation_done`).
    pub fn menu_frame_end(&mut self, animation_done: bool)
        ensures
            final(self).show_menu == old(self).show_menu,
            final(self).menu_anim_started == (old(self).menu_anim_started || !old(self).show_menu),
            final(self).menu_visible == (old(self).menu_visible && !(!old(self).show_menu
                && old(self).menu_anim_started && animation_done)),
            final(self).splash_visible == old(self).splash_visible,
            final(self).update_progress_visible == old(self).update_progress_visible,
            final(self).notification_count == old(self).notification_count,
            final(self).window_count == old(self).window_count,
    {
        if !self.show_menu {
            if self.menu_anim_started {
                if animation_done {
                    self.menu_visible = false;
                }
            } else {
                self.menu_anim_started = true;
            }
        }
    }

    /// Nothing is drawn.
    pub fn is_empty(&self) -> (r: bool)
        ensures
            r == (!self.splash_visible && !self.menu_visible && !self.update_progress_visible
                && self.notification_count == 0 && self.window_count == 0),
    {
        !self.splash_visible && !self.menu_visible && !self.update_progress_visible
            && self.notification_count == 0 && self.window_count == 0
    }

    /// The overlay takes the input: the menu is drawn or a window is open.
    pub fn is_consuming_input(&self) -> (r: bool)
        ensures
            r == consumes_input(*self),
    {
        self.menu_visible || self.window_count > 0
    }

    /// A notification is shown.
    pub fn show_notification(&mut self)
        requires
            old(self).notification_count < usize::MAX,
        ensures
            final(self).notification_count == old(self).notification_count + 1,
            final(self).window_count == old(self).window_count,
            final(self).show_menu == old(self).show_menu,
            final(self).menu_visible == old(self).menu_visible,
    {
        self.notification_count = self.notification_count + 1;
    }

    /// A window is opened.
    pub fn show_window(&mut self)
        requires
            old(self).window_count < usize::MAX,
        ensures
            final(self).window_count == old(self).window_count + 1,
            final(self).notification_count == old(self).notification_count,
            final(self).show_menu == old(self).show_menu,
            final(self).menu_visible == old(self).menu_visible,
    {
        self.window_count = self.window_count + 1;
    }
}

/// Opening the menu makes the overlay take the input at once, and a second
/// toggle asks for the menu to be hidden again.
pub proof fn law_open_menu_takes_input(g: GuiState)
    requires
        !g.show_menu,
    ensures
        consumes_input(toggled(g)),
        toggled(g).show_menu,
        !toggled(toggled(g)).show_menu,
{
}

/// The tabs of the config editor.
#[derive(PartialEq, Eq, Structural, Clone, Copy, Debug)]
pub enum ConfigEditorTab {
    General,
    Graphics,
    Gameplay,
    Advanced,
}

pub open spec fn tab_index(t: ConfigEditorTab) -> usize {
    match t {
        ConfigEditorTab::General => 0,
        ConfigEditorTab::Graphics => 1,
        ConfigEditorTab::Gameplay => 2,
        ConfigEditorTab::Advanced => 3,
    }
}

pub open spec fn tab_of_index(i: usize) -> ConfigEditorTab {
    if i == 1 {
        ConfigEditorTab::Graphics
    } else if i == 2 {
        ConfigEditorTab::Gameplay
    } else if i == 3 {
        ConfigEditorTab::Advanced
    } else {
        ConfigEditorTab::General
    }
}

impl ConfigEditorTab {
    /// The tab's position in the tab bar.
    pub fn as_index(self) -> (i: usize)
        ensures
            i == tab_index(self),
    {
        match self {
            ConfigEditorTab::General => 0,
            ConfigEditorTab::Graphics => 1,
            ConfigEditorTab::Gameplay => 2,
            ConfigEditorTab::Advanced => 3,
        }
    }

    /// The tab at position `i`; positions past the bar give the first tab.
    pub fn from_index(i: usize) -> (t: Self)
        ensures
            t == tab_of_index(i),
    {
        match i {
            1 => ConfigEditorTab::Graphics,
            2 => ConfigEditorTab::Gameplay,
            3 => ConfigEditorTab::Advanced,
            _ => ConfigEditorTab::General,
        }
    }
}

/// A tab survives the trip through its position, and every position of the
/// bar names the tab there.
pub proof fn law_tab_index_round_trip(t: ConfigEditorTab, i: usize)
    ensures
        tab_of_index(tab_index(t)) == t,
        i < 4 ==> tab_index(tab_of_index(i)) == i,
{
}

/// The page shown next and whether the window stays open, after a frame of a
/// multi-page window: "next" (offered when allowed) moves on, "done" on the
/// last page closes, and "previous" then moves back from any page but the
/// first.
pub fn page_navigation(
    page: usize,
    page_count: usize,
    allow_next: bool,
    next_clicked: bool,
    done_clicked: bool,
    previous_clicked: bool,
) -> (r: (usize, bool))
    requires
        page_count > 0,
    ensures
        ({
            let after_next = if page < page_count - 1 && allow_next && next_clicked {
                page + 1
            } else {
                page as int
            };
            let open = !(page >= page_count - 1 && done_clicked);
            let after_prev = if after_next > 0 && previous_clicked {
                after_next - 1
            } else {
                after_next
            };
            r == (after_prev as usize, open)
        }),
{
    let mut i = page;
    let mut open = true;
    if i < page_count - 1 {
        if allow_next && next_clicked {
            i += 1;
        }
    } else if done_clicked {
        open = false;
    }
    if i > 0 && previous_clicked {
        i -= 1;
    }
    (i, open)
}

} // verus!
