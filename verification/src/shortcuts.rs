//! Keys and pointer motion as the shell sees them: shortcuts, device classes
//! and the choice of an input backend.

use crate::binary64::{finite, is_finite, round_to_i32, rounded};
use crate::num::saturated;
use vstd::prelude::*;

verus! {

/// Linux input-event code for the primary pointer button.
pub const PRIMARY_POINTER_BUTTON: u32 = 0x110;

pub const KEY_ESCAPE: u32 = 0xff1b;

pub const KEY_RETURN: u32 = 0xff0d;

pub const KEY_TAB: u32 = 0xff09;

pub const KEY_ISO_LEFT_TAB: u32 = 0xfe20;

pub const KEY_LEFT: u32 = 0xff51;

pub const KEY_RIGHT: u32 = 0xff53;

/// Whether a button is allowed to activate compositor-owned chrome. Secondary
/// buttons remain client input and never trigger a shell action.
pub fn is_primary_pointer_button(button: u32) -> (primary: bool)
    ensures
        primary == (button == PRIMARY_POINTER_BUTTON),
{
    button == PRIMARY_POINTER_BUTTON
}

/// A bounded, renderer-friendly pointer position.
#[derive(Debug, Clone, Copy, PartialEq, Eq, Structural)]
pub struct VisualPointerPosition {
    /// Rounded logical x coordinate.
    pub x: i32,
    /// Rounded logical y coordinate.
    pub y: i32,
}

/// The whole pixel of a pointer position, kept within 32 bits; none where a
/// coordinate is infinite or NaN.
pub open spec fn pixel_of(x: u64, y: u64) -> Option<VisualPointerPosition> {
    if finite(x) && finite(y) {
        Some(
            VisualPointerPosition {
                x: saturated(rounded(x)) as i32,
                y: saturated(rounded(y)) as i32,
            },
        )
    } else {
        None
    }
}

impl VisualPointerPosition {
    /// Converts a backend coordinate, the bits of two binary64 numbers, without
    /// allowing NaN or infinity to enter geometry code. Saturation keeps
    /// malformed device data inside the integer range while preserving the
    /// fact that it is off-screen.
    pub fn from_f64(x: u64, y: u64) -> (position: Option<Self>)
        ensures
            position == pixel_of(x, y),
    {
        if !is_finite(x) || !is_finite(y) {
            return None;
        }
        Some(VisualPointerPosition { x: round_to_i32(x), y: round_to_i32(y) })
    }
}

/// Whether a pointer motion can change a pixel-aligned shell surface.
///
/// Callers forward every motion to the seat, and use this result only to
/// decide whether the compositor-owned chrome needs a new frame. An invalid
/// sample is a recovery boundary: redrawing once removes stale hover feedback.
pub fn pointer_visual_motion_changed(previous: (u64, u64), next: (u64, u64)) -> (changed: bool)
    ensures
        changed == match (pixel_of(previous.0, previous.1), pixel_of(next.0, next.1)) {
            (Some(before), Some(after)) => before != after,
            _ => true,
        },
{
    match (
        VisualPointerPosition::from_f64(previous.0, previous.1),
        VisualPointerPosition::from_f64(next.0, next.1),
    ) {
        (Some(before), Some(after)) => before != after,
        _ => true,
    }
}

/// Actions owned by the shell rather than by a Wayland client.
#[derive(Debug, Clone, Copy, PartialEq, Eq, Structural)]
pub enum ShellShortcut {
    /// Toggle the built-in terminal.
    ToggleTerminal,
    /// Toggle the launcher.
    ToggleLauncher,
    /// Toggle the Flatpak gallery.
    ToggleGallery,
    /// Toggle notifications.
    ToggleNotifications,
    /// Toggle Finder.
    ToggleFinder,
    /// Toggle Settings.
    ToggleSettings,
    /// Cycle windows in MRU order. `reverse` is Shift+Tab.
    CycleWindows { reverse: bool },
    /// Move to a neighboring virtual workspace.
    SwitchWorkspace { delta: i32 },
    /// Focus an MRU window by its one-based number.
    FocusWindow { number: u8 },
    /// Close the focused window.
    CloseWindow,
    /// Minimize or restore the focused window.
    MinimizeWindow,
    /// Toggle maximize for the focused window.
    ToggleMaximize,
    /// Toggle fullscreen for the focused window.
    ToggleFullscreen,
    /// Dismiss the topmost shell overlay.
    DismissOverlay,
}

/// Whether `raw` is the keysym of a letter, in lower or upper case.
pub open spec fn is_letter(raw: u32, lower: char) -> bool {
    raw == lower as u32 || raw == lower as u32 - 32
}

/// The action of a key that is pressed together with the logo key alone, or
/// with the logo key and Shift.
pub open spec fn logo_shortcut(raw: u32, shift: bool) -> Option<ShellShortcut> {
    if !shift && '1' as u32 <= raw <= '9' as u32 {
        Some(ShellShortcut::FocusWindow { number: (raw - '0' as u32) as u8 })
    } else if raw == KEY_RETURN {
        Some(ShellShortcut::ToggleTerminal)
    } else if raw == ' ' as u32 {
        Some(ShellShortcut::ToggleLauncher)
    } else if is_letter(raw, 'g') {
        Some(ShellShortcut::ToggleGallery)
    } else if is_letter(raw, 'n') {
        Some(ShellShortcut::ToggleNotifications)
    } else if is_letter(raw, 'e') {
        Some(ShellShortcut::ToggleFinder)
    } else if raw == ',' as u32 {
        Some(ShellShortcut::ToggleSettings)
    } else if is_letter(raw, 'q') {
        Some(ShellShortcut::CloseWindow)
    } else if is_letter(raw, 'm') {
        Some(ShellShortcut::MinimizeWindow)
    } else if is_letter(raw, 'w') {
        Some(ShellShortcut::ToggleMaximize)
    } else if is_letter(raw, 'f') {
        Some(ShellShortcut::ToggleFullscreen)
    } else {
        None
    }
}

/// The shell action of a pressed key under its modifiers.
pub open spec fn shortcut_of(
    raw: u32,
    logo: bool,
    ctrl: bool,
    alt: bool,
    shift: bool,
) -> Option<ShellShortcut> {
    if !logo && !ctrl && !alt && !shift && raw == KEY_ESCAPE {
        Some(ShellShortcut::DismissOverlay)
    } else if (logo || alt) && !ctrl && (raw == KEY_TAB || raw == KEY_ISO_LEFT_TAB) {
        Some(ShellShortcut::CycleWindows { reverse: shift || raw == KEY_ISO_LEFT_TAB })
    } else if ((ctrl && alt) || (logo && ctrl)) && !shift {
        if raw == KEY_LEFT {
            Some(ShellShortcut::SwitchWorkspace { delta: (-1) as i32 })
        } else if raw == KEY_RIGHT {
            Some(ShellShortcut::SwitchWorkspace { delta: 1 })
        } else {
            None
        }
    } else if logo && !ctrl && !alt {
        logo_shortcut(raw, shift)
    } else {
        None
    }
}

/// Resolves one pressed keysym into a shell action.
///
/// `raw` is an XKB keysym. Terminal bindings with Ctrl and Shift are not
/// claimed, and plain text keys remain available to clients.
pub fn shell_shortcut(raw: u32, logo: bool, ctrl: bool, alt: bool, shift: bool) -> (action: Option<
    ShellShortcut,
>)
    ensures
        action == shortcut_of(raw, logo, ctrl, alt, shift),
{
    if !logo && !ctrl && !alt && !shift && raw == KEY_ESCAPE {
        return Some(ShellShortcut::DismissOverlay);
    }
    if (logo || alt) && !ctrl && (raw == KEY_TAB || raw == KEY_ISO_LEFT_TAB) {
        return Some(ShellShortcut::CycleWindows { reverse: shift || raw == KEY_ISO_LEFT_TAB });
    }
    if ((ctrl && alt) || (logo && ctrl)) && !shift {
        if raw == KEY_LEFT {
            return Some(ShellShortcut::SwitchWorkspace { delta: -1 });
        }
        if raw == KEY_RIGHT {
            return Some(ShellShortcut::SwitchWorkspace { delta: 1 });
        }
        return None;
    }
    if !logo || ctrl || alt {
        return None;
    }
    if !shift && '1' as u32 <= raw && raw <= '9' as u32 {
        return Some(ShellShortcut::FocusWindow { number: (raw - '0' as u32) as u8 });
    }
    if raw == KEY_RETURN {
        return Some(ShellShortcut::ToggleTerminal);
    }
    if raw == ' ' as u32 {
        return Some(ShellShortcut::ToggleLauncher);
    }
    if raw == 'g' as u32 || raw == 'G' as u32 {
        return Some(ShellShortcut::ToggleGallery);
    }
    if raw == 'n' as u32 || raw == 'N' as u32 {
        return Some(ShellShortcut::ToggleNotifications);
    }
    if raw == 'e' as u32 || raw == 'E' as u32 {
        return Some(ShellShortcut::ToggleFinder);
    }
    if raw == ',' as u32 {
        return Some(ShellShortcut::ToggleSettings);
    }
    if raw == 'q' as u32 || raw == 'Q' as u32 {
        return Some(ShellShortcut::CloseWindow);
    }
    if raw == 'm' as u32 || raw == 'M' as u32 {
        return Some(ShellShortcut::MinimizeWindow);
    }
    if raw == 'w' as u32 || raw == 'W' as u32 {
        return Some(ShellShortcut::ToggleMaximize);
    }
    if raw == 'f' as u32 || raw == 'F' as u32 {
        return Some(ShellShortcut::ToggleFullscreen);
    }
    None
}

/// Without a modifier the shell claims no key but Escape, so plain text always
/// reaches the client.
pub proof fn plain_keys_reach_clients(raw: u32, shift: bool)
    requires
        raw != KEY_ESCAPE || shift,
    ensures
        shortcut_of(raw, false, false, false, shift) is None,
{
}

/// The shell claims nothing that is pressed with Ctrl and Shift.
pub proof fn terminal_bindings_reach_clients(raw: u32, logo: bool, alt: bool)
    ensures
        shortcut_of(raw, logo, true, alt, true) is None,
{
}

/// The broad class of a physical input device.
#[derive(Debug, Clone, Copy, PartialEq, Eq, Hash, Structural)]
pub enum DeviceKind {
    /// A keyboard or keyboard-like device.
    Keyboard,
    /// A relative mouse or pointing device.
    Mouse,
    /// A pointer device which also exposes gesture events.
    Touchpad,
    /// An absolute touchscreen or touch-capable panel.
    Touchscreen,
    /// A tablet tool or other absolute stylus device.
    Tablet,
    /// A device that does not match a class Rouch consumes.
    Unknown,
}

impl DeviceKind {
    pub fn label(self) -> (label: &'static str)
        ensures
            label@ == (match self {
                DeviceKind::Keyboard => "keyboard"@,
                DeviceKind::Mouse => "mouse"@,
                DeviceKind::Touchpad => "touchpad"@,
                DeviceKind::Touchscreen => "touchscreen"@,
                DeviceKind::Tablet => "tablet"@,
                DeviceKind::Unknown => "unknown"@,
            }),
    {
        match self {
            DeviceKind::Keyboard => "keyboard",
            DeviceKind::Mouse => "mouse",
            DeviceKind::Touchpad => "touchpad",
            DeviceKind::Touchscreen => "touchscreen",
            DeviceKind::Tablet => "tablet",
            DeviceKind::Unknown => "unknown",
        }
    }
}

pub open spec fn class_of(
    keyboard: bool,
    pointer: bool,
    touch: bool,
    tablet: bool,
    gesture: bool,
) -> DeviceKind {
    if touch {
        DeviceKind::Touchscreen
    } else if tablet {
        DeviceKind::Tablet
    } else if gesture && pointer {
        DeviceKind::Touchpad
    } else if keyboard {
        DeviceKind::Keyboard
    } else if pointer {
        DeviceKind::Mouse
    } else {
        DeviceKind::Unknown
    }
}

/// Picks a device class from capability facts. Touch takes precedence over
/// gesture because some touchscreens expose both.
pub fn classify_device_capabilities(
    keyboard: bool,
    pointer: bool,
    touch: bool,
    tablet: bool,
    gesture: bool,
) -> (kind: DeviceKind)
    ensures
        kind == class_of(keyboard, pointer, touch, tablet, gesture),
{
    if touch {
        DeviceKind::Touchscreen
    } else if tablet {
        DeviceKind::Tablet
    } else if gesture && pointer {
        DeviceKind::Touchpad
    } else if keyboard {
        DeviceKind::Keyboard
    } else if pointer {
        DeviceKind::Mouse
    } else {
        DeviceKind::Unknown
    }
}

/// Which input path is currently usable.
#[derive(Debug, Clone, Copy, PartialEq, Eq, Structural)]
pub enum InputBackendChoice {
    /// Native libinput through the compositor seat.
    Libinput,
    /// The nested host-window adapter.
    NestedHost,
    /// No input backend is available; the shell must remain recoverable.
    Unavailable,
}

/// The source of input: native before nested.
pub open spec fn input_source(libinput_ready: bool, nested_ready: bool) -> InputBackendChoice {
    if libinput_ready {
        InputBackendChoice::Libinput
    } else if nested_ready {
        InputBackendChoice::NestedHost
    } else {
        InputBackendChoice::Unavailable
    }
}

/// Selects native input first, then the nested path.
pub fn select_input_backend(libinput_ready: bool, nested_ready: bool) -> (choice: InputBackendChoice)
    ensures
        choice == input_source(libinput_ready, nested_ready),
{
    if libinput_ready {
        InputBackendChoice::Libinput
    } else if nested_ready {
        InputBackendChoice::NestedHost
    } else {
        InputBackendChoice::Unavailable
    }
}

// ---- laws ------------------------------------------------------------------------------

/// Which keys cycle, switch and dismiss: Escape alone dismisses; Tab with the
/// logo key or Alt, and without Ctrl, cycles, backwards with Shift; the arrow
/// keys with Ctrl and Alt, or with Ctrl and the logo key, and without Shift,
/// switch to the workspace on their own side.
pub proof fn navigation_keys_are_these(
    raw: u32,
    logo: bool,
    ctrl: bool,
    alt: bool,
    shift: bool,
    reverse: bool,
    delta: i32,
)
    ensures
        shortcut_of(raw, logo, ctrl, alt, shift) == Some(ShellShortcut::DismissOverlay) <==> raw
            == 0xff1b && !(logo || ctrl || alt || shift),
        shortcut_of(raw, logo, ctrl, alt, shift) == Some(ShellShortcut::CycleWindows { reverse })
            <==> ((raw == 0xff09 && reverse == shift) || (raw == 0xfe20 && reverse)) && !ctrl && (
        logo || alt),
        shortcut_of(raw, logo, ctrl, alt, shift) == Some(ShellShortcut::SwitchWorkspace { delta })
            <==> ctrl && (alt || logo) && !shift && ((raw == 0xff51 && delta == -1) || (raw
            == 0xff53 && delta == 1)),
{
}

/// Which keys act with the logo key: a digit from 1 to 9 focuses the window of
/// that number, without Shift; Return, space, the comma and the letters g, n,
/// e, q, m, w and f, in either case, are the other bindings. None of them acts
/// with Ctrl or Alt.
pub proof fn logo_keys_are_these(
    raw: u32,
    logo: bool,
    ctrl: bool,
    alt: bool,
    shift: bool,
    number: u8,
)
    ensures
        ({
            let action = shortcut_of(raw, logo, ctrl, alt, shift);
            let alone = logo && !ctrl && !alt;
            &&& action == Some(ShellShortcut::FocusWindow { number }) <==> alone && !shift && 1
                <= number <= 9 && raw == 0x30 + number
            &&& action == Some(ShellShortcut::ToggleTerminal) <==> alone && raw == 0xff0d
            &&& action == Some(ShellShortcut::ToggleLauncher) <==> alone && raw == 0x20
            &&& action == Some(ShellShortcut::ToggleGallery) <==> alone && (raw == 0x67 || raw
                == 0x47)
            &&& action == Some(ShellShortcut::ToggleNotifications) <==> alone && (raw == 0x6e || raw
                == 0x4e)
            &&& action == Some(ShellShortcut::ToggleFinder) <==> alone && (raw == 0x65 || raw
                == 0x45)
            &&& action == Some(ShellShortcut::ToggleSettings) <==> alone && raw == 0x2c
            &&& action == Some(ShellShortcut::CloseWindow) <==> alone && (raw == 0x71 || raw
                == 0x51)
            &&& action == Some(ShellShortcut::MinimizeWindow) <==> alone && (raw == 0x6d || raw
                == 0x4d)
            &&& action == Some(ShellShortcut::ToggleMaximize) <==> alone && (raw == 0x77 || raw
                == 0x57)
            &&& action == Some(ShellShortcut::ToggleFullscreen) <==> alone && (raw == 0x66 || raw
                == 0x46)
        }),
{
}

/// What a device is told to be: a touchscreen wherever it has touch, a tablet
/// without it, a touchpad where it has both a pointer and gestures, and only
/// then a keyboard or a mouse.
pub proof fn device_classes_are_these(
    keyboard: bool,
    pointer: bool,
    touch: bool,
    tablet: bool,
    gesture: bool,
)
    ensures
        ({
            let kind = class_of(keyboard, pointer, touch, tablet, gesture);
            &&& kind == DeviceKind::Touchscreen <==> touch
            &&& kind == DeviceKind::Tablet <==> !touch && tablet
            &&& kind == DeviceKind::Touchpad <==> !touch && !tablet && gesture && pointer
            &&& kind == DeviceKind::Keyboard <==> !touch && !tablet && !(gesture && pointer)
                && keyboard
            &&& kind == DeviceKind::Mouse <==> !touch && !tablet && !gesture && !keyboard && pointer
            &&& kind == DeviceKind::Unknown <==> !touch && !tablet && !keyboard && !pointer
        }),
{
}

/// Native input is used wherever it is ready, the nested path only without it,
/// and input is unavailable only without both.
pub proof fn native_input_comes_first(native: bool, nested: bool)
    ensures
        input_source(native, nested) == InputBackendChoice::Libinput <==> native,
        input_source(native, nested) == InputBackendChoice::NestedHost <==> !native && nested,
        input_source(native, nested) == InputBackendChoice::Unavailable <==> !native && !nested,
{
}

/// A position is told as its own pixel, x and y each rounded to the nearest whole
/// number within 32 bits, wherever both are finite numbers.
pub proof fn positions_are_told_as_pixels(x: u64, y: u64)
    ensures
        pixel_of(x, y) is Some <==> finite(x) && finite(y),
        pixel_of(x, y) matches Some(pixel) ==> {
            &&& i32::MIN <= rounded(x) <= i32::MAX ==> pixel.x == rounded(x)
            &&& i32::MIN <= rounded(y) <= i32::MAX ==> pixel.y == rounded(y)
            &&& rounded(x) > i32::MAX ==> pixel.x == i32::MAX
            &&& rounded(y) > i32::MAX ==> pixel.y == i32::MAX
        },
{
}

} // verus!
