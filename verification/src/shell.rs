//! Which parts of the shell are open, and what follows from that.

use vstd::prelude::*;

verus! {

/// The screen that the idle session shows.
#[derive(Debug, Clone, Copy, PartialEq, Eq, Structural)]
pub enum SessionScreen {
    Active,
    Blank,
    Rest,
    Lock,
}

/// The part of the welcome that plays.
#[derive(Debug, Clone, Copy, PartialEq, Eq, Structural)]
pub enum WelcomeStage {
    FirstRun,
    Update,
}

/// What is open on top of the desktop.
#[derive(Debug, Clone, Copy, PartialEq, Eq, Structural)]
pub struct ShellState {
    pub session: SessionScreen,
    pub welcome: Option<WelcomeStage>,
    pub setup_open: bool,
    pub terminal_open: bool,
    pub remove_popup: bool,
    pub control_open: bool,
    pub launcher_open: bool,
    pub finder_open: bool,
    pub settings_open: bool,
    pub app_store_open: bool,
    pub notifications_open: bool,
}

/// An overlay that Escape dismisses.
#[derive(Debug, Clone, Copy, PartialEq, Eq, Structural)]
pub enum Overlay {
    RemovePopup,
    ControlCentre,
    Notifications,
    AppStore,
    Launcher,
    Finder,
    Settings,
}

impl ShellState {
    pub fn desktop() -> (state: Self)
        ensures
            state == Self::bare(),
    {
        ShellState {
            session: SessionScreen::Active,
            welcome: None,
            setup_open: false,
            terminal_open: false,
            remove_popup: false,
            control_open: false,
            launcher_open: false,
            finder_open: false,
            settings_open: false,
            app_store_open: false,
            notifications_open: false,
        }
    }

    /// A desktop with nothing open.
    pub open spec fn bare() -> Self {
        ShellState {
            session: SessionScreen::Active,
            welcome: None,
            setup_open: false,
            terminal_open: false,
            remove_popup: false,
            control_open: false,
            launcher_open: false,
            finder_open: false,
            settings_open: false,
            app_store_open: false,
            notifications_open: false,
        }
    }

    pub open spec fn locked_away(self) -> bool {
        self.session == SessionScreen::Rest || self.session == SessionScreen::Lock
    }

    /// The topmost overlay.
    pub open spec fn top_overlay(self) -> Option<Overlay> {
        if self.remove_popup {
            Some(Overlay::RemovePopup)
        } else if self.control_open {
            Some(Overlay::ControlCentre)
        } else if self.notifications_open {
            Some(Overlay::Notifications)
        } else if self.app_store_open {
            Some(Overlay::AppStore)
        } else if self.launcher_open {
            Some(Overlay::Launcher)
        } else if self.finder_open {
            Some(Overlay::Finder)
        } else if self.settings_open {
            Some(Overlay::Settings)
        } else {
            None
        }
    }

    pub open spec fn without(self, overlay: Overlay) -> Self {
        match overlay {
            Overlay::RemovePopup => ShellState { remove_popup: false, ..self },
            Overlay::ControlCentre => ShellState { control_open: false, ..self },
            Overlay::Notifications => ShellState { notifications_open: false, ..self },
            Overlay::AppStore => ShellState { app_store_open: false, ..self },
            Overlay::Launcher => ShellState { launcher_open: false, ..self },
            Overlay::Finder => ShellState { finder_open: false, ..self },
            Overlay::Settings => ShellState { settings_open: false, ..self },
        }
    }

    /// Whether an overlay is open.
    pub fn overlay_open(&self) -> (yes: bool)
        ensures
            yes == (self.top_overlay() is Some),
    {
        self.remove_popup || self.control_open || self.launcher_open || self.finder_open
            || self.settings_open || self.app_store_open || self.notifications_open
    }

    /// Dismisses only the topmost overlay, and tells which one it was.
    pub fn dismiss_shell_overlay(&mut self) -> (dismissed: Option<Overlay>)
        ensures
            dismissed == old(self).top_overlay(),
            *final(self) == (match dismissed {
                Some(overlay) => old(self).without(overlay),
                None => *old(self),
            }),
    {
        if self.remove_popup {
            self.remove_popup = false;
            return Some(Overlay::RemovePopup);
        }
        if self.control_open {
            self.control_open = false;
            return Some(Overlay::ControlCentre);
        }
        if self.notifications_open {
            self.notifications_open = false;
            return Some(Overlay::Notifications);
        }
        if self.app_store_open {
            self.app_store_open = false;
            return Some(Overlay::AppStore);
        }
        if self.launcher_open {
            self.launcher_open = false;
            return Some(Overlay::Launcher);
        }
        if self.finder_open {
            self.finder_open = false;
            return Some(Overlay::Finder);
        }
        if self.settings_open {
            self.settings_open = false;
            return Some(Overlay::Settings);
        }
        None
    }

    /// Whether the shell owns the keyboard. A shell surface is not a Wayland
    /// surface, so client focus is cleared while a modal one is open.
    pub open spec fn keyboard_is_the_shells(self) -> bool {
        self.session != SessionScreen::Active || self.welcome is Some || self.setup_open
            || self.top_overlay() is Some
    }

    pub fn shell_has_keyboard(&self) -> (yes: bool)
        ensures
            yes == self.keyboard_is_the_shells(),
    {
        self.session != SessionScreen::Active || self.welcome.is_some() || self.setup_open
            || self.overlay_open()
    }

    /// Whether pointer motion is kept from clients.
    pub open spec fn pointer_is_the_shells(self) -> bool {
        self.locked_away() || self.launcher_open || self.finder_open || self.settings_open
            || self.app_store_open || self.notifications_open || self.terminal_open
            || self.setup_open || self.welcome is Some
    }

    pub fn shell_has_pointer(&self) -> (yes: bool)
        ensures
            yes == self.pointer_is_the_shells(),
    {
        self.session == SessionScreen::Rest || self.session == SessionScreen::Lock
            || self.launcher_open || self.finder_open || self.settings_open || self.app_store_open
            || self.notifications_open || self.terminal_open || self.setup_open
            || self.welcome.is_some()
    }

    /// Whether a modal surface owns window navigation.
    pub open spec fn holds_navigation(self) -> bool {
        self.top_overlay() is Some || self.welcome is Some || self.setup_open
    }

    pub fn navigation_held(&self) -> (yes: bool)
        ensures
            yes == self.holds_navigation(),
    {
        self.overlay_open() || self.welcome.is_some() || self.setup_open
    }
}

pub open spec fn overlay_count(state: ShellState) -> nat {
    let one = |b: bool| -> nat {
        if b {
            1nat
        } else {
            0nat
        }
    };
    one(state.remove_popup) + one(state.control_open) + one(state.notifications_open) + one(
        state.app_store_open,
    ) + one(state.launcher_open) + one(state.finder_open) + one(state.settings_open)
}

/// Dismissing takes away exactly one overlay, so that as many dismissals as
/// there are overlays leave none.
pub proof fn dismissing_takes_one_overlay(state: ShellState)
    requires
        state.top_overlay() is Some,
    ensures
        overlay_count(state.without(state.top_overlay()->Some_0)) == overlay_count(state) - 1,
        state.without(state.top_overlay()->Some_0).session == state.session,
        state.without(state.top_overlay()->Some_0).welcome == state.welcome,
{
}

/// What Escape takes away is the overlay on top: the popup above the control
/// centre, that above the notifications, the gallery, the launcher, the Finder
/// and the settings. What is dismissed is closed, and nothing else.
pub proof fn overlays_are_dismissed_from_the_top(state: ShellState)
    ensures
        ({
            let top = state.top_overlay();
            let after = match top {
                Some(overlay) => state.without(overlay),
                None => state,
            };
            &&& top is None <==> !(state.remove_popup || state.control_open
                || state.notifications_open || state.app_store_open || state.launcher_open
                || state.finder_open || state.settings_open)
            &&& top == Some(Overlay::RemovePopup) <==> state.remove_popup
            &&& top == Some(Overlay::ControlCentre) <==> state.control_open && !state.remove_popup
            &&& top == Some(Overlay::Notifications) <==> state.notifications_open
                && !(state.remove_popup || state.control_open)
            &&& top == Some(Overlay::AppStore) <==> state.app_store_open && !(state.remove_popup
                || state.control_open || state.notifications_open)
            &&& top == Some(Overlay::Launcher) <==> state.launcher_open && !(state.remove_popup
                || state.control_open || state.notifications_open || state.app_store_open)
            &&& top == Some(Overlay::Finder) <==> state.finder_open && !(state.remove_popup
                || state.control_open || state.notifications_open || state.app_store_open
                || state.launcher_open)
            &&& top == Some(Overlay::Settings) <==> state.settings_open && !(state.remove_popup
                || state.control_open || state.notifications_open || state.app_store_open
                || state.launcher_open || state.finder_open)
            &&& after.remove_popup <==> false
            &&& after.control_open <==> state.control_open && top != Some(Overlay::ControlCentre)
            &&& after.notifications_open <==> state.notifications_open && top != Some(
                Overlay::Notifications,
            )
            &&& after.app_store_open <==> state.app_store_open && top != Some(Overlay::AppStore)
            &&& after.launcher_open <==> state.launcher_open && top != Some(Overlay::Launcher)
            &&& after.finder_open <==> state.finder_open && top != Some(Overlay::Finder)
            &&& after.settings_open <==> state.settings_open && top != Some(Overlay::Settings)
            &&& after.terminal_open == state.terminal_open
            &&& after.setup_open == state.setup_open
        }),
{
}

/// The bare desktop belongs to the clients: the shell has neither its keyboard
/// nor its pointer. Each screen, welcome, setup or overlay takes the keyboard;
/// the terminal and the control centre differ: the terminal takes the pointer
/// only, and the control centre leaves the pointer.
pub proof fn input_belongs_to_what_is_open(state: ShellState)
    ensures
        !ShellState::bare().keyboard_is_the_shells() && !ShellState::bare().pointer_is_the_shells()
            && !ShellState::bare().holds_navigation(),
        !state.keyboard_is_the_shells() <==> {
            &&& state.session == SessionScreen::Active && state.welcome is None
            &&& !state.setup_open && !state.remove_popup && !state.control_open
            &&& !state.notifications_open && !state.app_store_open && !state.launcher_open
            &&& !state.finder_open && !state.settings_open
        },
        !state.pointer_is_the_shells() <==> {
            &&& state.session == SessionScreen::Active || state.session == SessionScreen::Blank
            &&& state.welcome is None && !state.setup_open && !state.terminal_open
            &&& !state.notifications_open && !state.app_store_open && !state.launcher_open
            &&& !state.finder_open && !state.settings_open
        },
        state.holds_navigation() ==> state.keyboard_is_the_shells(),
        state.session == SessionScreen::Active ==> (state.keyboard_is_the_shells()
            <==> state.holds_navigation()),
{
}

} // verus!
